use vstd::prelude::*;

use crate::msg::{Coin, ExecuteMsg, InstantiateMsg, MessageInfo};
use crate::state::{
    lemma_upserted_wf, ClientRegistry, Ledger, LedgerModel, MinterData, Pool, StateInfo,
    TokenInfo,
};

verus! {

/// Failures of the pool's own logic.
#[derive(Clone, Copy, Debug, PartialEq, Eq)]
pub enum ContractError {
    /// No attached coin has the accepted denomination.
    WrongPaymentTokenError,
    /// The deposit would carry a counter past `u128::MAX`.
    Overflow,
}

/// What a deposit did: the receipt tokens to mint, and to whom.
#[derive(Clone, Debug, PartialEq, Eq)]
pub struct DepositRecord {
    pub quantity_minted: u128,
    pub address_to_mint: String,
}

/// The receipt-token operation an action asks for.
#[derive(Clone, Debug, PartialEq, Eq)]
pub enum TokenAction {
    /// Mint `amount` to `recipient`, with the pool as minting authority.
    Mint { recipient: String, amount: u128 },
    Transfer { recipient: String, amount: u128 },
    Burn { amount: u128 },
    Send { contract: String, amount: u128, msg: Vec<u8> },
}

pub open spec fn denoms_of(funds: Seq<Coin>) -> Seq<Seq<char>> {
    funds.map_values(|c: Coin| c.denom@)
}

/// The amount of the first attached coin of denomination `denom`, if any.
pub open spec fn accepted_amount(funds: Seq<Coin>, denom: Seq<char>) -> Option<u128> {
    match denoms_of(funds).index_of_first(denom) {
        Some(i) => Some(funds[i].amount),
        None => None,
    }
}

/// The pool and registry after one deposit call: unchanged when no coin of
/// `denom` is attached or when the amount does not fit.
pub open spec fn deposit_step(
    m: LedgerModel,
    denom: Seq<char>,
    sender: Seq<char>,
    funds: Seq<Coin>,
) -> LedgerModel {
    match accepted_amount(funds, denom) {
        Some(q) => if m.can_take(sender, q) {
            m.deposited(sender, q)
        } else {
            m
        },
        None => m,
    }
}

/// The receipt tokens one deposit call mints: zero when it is refused.
pub open spec fn minted_by_step(
    m: LedgerModel,
    denom: Seq<char>,
    sender: Seq<char>,
    funds: Seq<Coin>,
) -> int {
    match accepted_amount(funds, denom) {
        Some(q) => if m.can_take(sender, q) {
            q as int
        } else {
            0
        },
        None => 0,
    }
}

/// The amount attached in the denomination `denom`.
pub fn find_payment(funds: &Vec<Coin>, denom: &String) -> (r: Option<u128>)
    ensures
        r == accepted_amount(funds@, denom@),
{
    let mut i: usize = 0;
    while i < funds.len()
        invariant
            i <= funds@.len(),
            forall|j: int| 0 <= j < i ==> denoms_of(funds@)[j] != denom@,
        decreases funds@.len() - i,
    {
        if funds[i].denom == *denom {
            proof {
                assert(denoms_of(funds@)[i as int] == denom@);
                assert(denoms_of(funds@).contains(denom@));
                denoms_of(funds@).index_of_first_ensures(denom@);
            }
            return Some(funds[i].amount);
        }
        i = i + 1;
    }
    proof {
        denoms_of(funds@).index_of_first_ensures(denom@);
    }
    None
}

/// Sets up the pool: `info.sender` becomes administrator, and financial
/// officer unless `msg` names one; the pool is empty; the receipt token
/// starts with no supply, mintable without cap by `contract_address`.
pub fn instantiate(info: &MessageInfo, contract_address: &String, msg: InstantiateMsg) -> (r: (
    Ledger,
    TokenInfo,
))
    ensures
        r.0.state.admin_addr@ == info.sender@,
        r.0.state.cfo_addr@ == match msg.cfo {
            Some(c) => c@,
            None => info.sender@,
        },
        r.0.state.token_denom@ == "upebble"@,
        r.0.state.min_withdrawal == msg.min_withdrawal,
        r.0.pool == (Pool { pool_total_amount: 0, pool_total_amount_staked: 0, total_claim: 0 }),
        r.0@.clients.ids.len() == 0,
        r.0@.clients.records.len() == 0,
        r.0.clients.aligned(),
        r.0@.wf(),
        r.1.name@ == msg.name@,
        r.1.symbol@ == msg.symbol@,
        r.1.decimals == msg.decimals,
        r.1.total_supply == 0,
        r.1.mint == Some(MinterData { minter: *contract_address, cap: None }),
{
    let token = TokenInfo {
        name: msg.name,
        symbol: msg.symbol,
        decimals: msg.decimals,
        total_supply: 0,
        mint: Some(MinterData { minter: contract_address.clone(), cap: None }),
    };
    let cfo_addr = match msg.cfo {
        Some(c) => c,
        None => info.sender.clone(),
    };
    let state = StateInfo {
        admin_addr: info.sender.clone(),
        cfo_addr,
        token_denom: String::from_str("upebble"),
        min_withdrawal: msg.min_withdrawal,
    };
    let pool = Pool { pool_total_amount: 0, pool_total_amount_staked: 0, total_claim: 0 };
    let clients = ClientRegistry::new();
    (Ledger { state, pool, clients }, token)
}

/// Takes in the coin of the accepted denomination attached by
/// `info.sender`: the pool and the sender's record grow by its amount, and
/// that many receipt tokens are owed to the sender. Any failure leaves the
/// ledger as it was.
pub fn execute_deposit(ledger: &mut Ledger, info: &MessageInfo) -> (r: Result<
    DepositRecord,
    ContractError,
>)
    requires
        old(ledger).clients.aligned(),
    ensures
        final(ledger).state == old(ledger).state,
        final(ledger).clients.aligned(),
        match accepted_amount(info.funds@, old(ledger).state.token_denom@) {
            None => {
                &&& r == Err::<DepositRecord, ContractError>(ContractError::WrongPaymentTokenError)
                &&& final(ledger)@ == old(ledger)@
            },
            Some(q) => if old(ledger)@.can_take(info.sender@, q) {
                &&& r is Ok
                &&& r->Ok_0.quantity_minted == q
                &&& r->Ok_0.address_to_mint@ == info.sender@
                &&& final(ledger)@ == old(ledger)@.deposited(info.sender@, q)
            } else {
                &&& r == Err::<DepositRecord, ContractError>(ContractError::Overflow)
                &&& final(ledger)@ == old(ledger)@
            },
        },
        old(ledger)@.wf() ==> final(ledger)@.wf(),
        final(ledger)@ == deposit_step(
            old(ledger)@,
            old(ledger).state.token_denom@,
            info.sender@,
            info.funds@,
        ),
        match r {
            Ok(record) => record.quantity_minted == minted_by_step(
                old(ledger)@,
                old(ledger).state.token_denom@,
                info.sender@,
                info.funds@,
            ),
            Err(_) => minted_by_step(
                old(ledger)@,
                old(ledger).state.token_denom@,
                info.sender@,
                info.funds@,
            ) == 0,
        },
{
    let quantity = match find_payment(&info.funds, &ledger.state.token_denom) {
        Some(q) => q,
        None => {
            return Err(ContractError::WrongPaymentTokenError);
        },
    };
    let staked = match ledger.clients.get(&info.sender) {
        Some(c) => c.nb_token_staked,
        None => 0,
    };
    if quantity > u128::MAX - ledger.pool.pool_total_amount || quantity > u128::MAX
        - ledger.pool.pool_total_amount_staked || quantity > u128::MAX - staked {
        return Err(ContractError::Overflow);
    }
    ledger.pool.record_deposit(quantity);
    ledger.clients.upsert(&info.sender, quantity);
    proof {
        if old(ledger)@.wf() {
            lemma_upserted_wf(old(ledger)@.clients, info.sender@, quantity);
        }
    }
    Ok(DepositRecord { quantity_minted: quantity, address_to_mint: info.sender.clone() })
}

/// Carries out one action: a deposit updates the ledger and asks for a
/// mint; the other actions go to the receipt-token ledger unchanged and
/// leave this ledger as it was.
pub fn execute(ledger: &mut Ledger, info: &MessageInfo, msg: ExecuteMsg) -> (r: Result<
    TokenAction,
    ContractError,
>)
    requires
        old(ledger).clients.aligned(),
    ensures
        final(ledger).state == old(ledger).state,
        final(ledger).clients.aligned(),
        old(ledger)@.wf() ==> final(ledger)@.wf(),
        match msg {
            ExecuteMsg::Deposit {  } => match accepted_amount(
                info.funds@,
                old(ledger).state.token_denom@,
            ) {
                None => {
                    &&& r == Err::<TokenAction, ContractError>(
                        ContractError::WrongPaymentTokenError,
                    )
                    &&& final(ledger)@ == old(ledger)@
                },
                Some(q) => if old(ledger)@.can_take(info.sender@, q) {
                    &&& r is Ok
                    &&& r->Ok_0 matches TokenAction::Mint { recipient, amount }
                    &&& recipient@ == info.sender@
                    &&& amount == q
                    &&& final(ledger)@ == old(ledger)@.deposited(info.sender@, q)
                } else {
                    &&& r == Err::<TokenAction, ContractError>(ContractError::Overflow)
                    &&& final(ledger)@ == old(ledger)@
                },
            },
            ExecuteMsg::Transfer { recipient, amount } => {
                &&& r == Ok::<TokenAction, ContractError>(TokenAction::Transfer { recipient, amount })
                &&& final(ledger)@ == old(ledger)@
            },
            ExecuteMsg::Burn { amount } => {
                &&& r == Ok::<TokenAction, ContractError>(TokenAction::Burn { amount })
                &&& final(ledger)@ == old(ledger)@
            },
            ExecuteMsg::Send { contract, amount, msg } => {
                &&& r == Ok::<TokenAction, ContractError>(TokenAction::Send { contract, amount, msg })
                &&& final(ledger)@ == old(ledger)@
            },
        },
{
    match msg {
        ExecuteMsg::Deposit {  } => match execute_deposit(ledger, info) {
            Ok(record) => Ok(
                TokenAction::Mint { recipient: record.address_to_mint, amount: record.quantity_minted },
            ),
            Err(e) => Err(e),
        },
        ExecuteMsg::Transfer { recipient, amount } => Ok(TokenAction::Transfer { recipient, amount }),
        ExecuteMsg::Burn { amount } => Ok(TokenAction::Burn { amount }),
        ExecuteMsg::Send { contract, amount, msg } => Ok(TokenAction::Send { contract, amount, msg }),
    }
}

} // verus!
