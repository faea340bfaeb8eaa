use vstd::prelude::*;

verus! {

/// A quantity of one denomination attached to a call.
#[derive(Clone, Debug, PartialEq, Eq)]
pub struct Coin {
    pub denom: String,
    pub amount: u128,
}

/// The caller of an action and the funds attached to it.
#[derive(Clone, Debug, PartialEq, Eq)]
pub struct MessageInfo {
    pub sender: String,
    pub funds: Vec<Coin>,
}

/// Setup parameters of the pool and its receipt token.
#[derive(Clone, Debug, PartialEq, Eq)]
pub struct InstantiateMsg {
    pub name: String,
    pub symbol: String,
    pub decimals: u8,
    /// Financial officer; the creator when absent.
    pub cfo: Option<String>,
    pub min_withdrawal: u128,
}

/// Actions on the pool and on the receipt token.
#[derive(Clone, Debug, PartialEq, Eq)]
pub enum ExecuteMsg {
    Deposit {  },
    Transfer { recipient: String, amount: u128 },
    Burn { amount: u128 },
    Send { contract: String, amount: u128, msg: Vec<u8> },
}

/// Queries answered by the receipt-token ledger.
#[derive(Clone, Debug, PartialEq, Eq)]
pub enum QueryMsg {
    Balance { address: String },
    TokenInfo {  },
}

} // verus!
