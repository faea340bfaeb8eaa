use cosmwasm_std::testing::{mock_dependencies, mock_env, mock_info};
use cosmwasm_std::{Addr, Uint128};
use cw20_base::contract::{execute_mint, query_balance, query_token_info};
use cw20_base::state::TOKEN_INFO;

use klub_deposit::contract::{
    execute, execute_deposit, find_payment, instantiate, ContractError, DepositRecord,
    TokenAction,
};
use klub_deposit::msg::{Coin, ExecuteMsg, InstantiateMsg, MessageInfo};
use klub_deposit::state::{Client, ClientRegistry, Ledger, Pool, TokenInfo};

const ADDR1: &str = "wasm1p98s59lc86eycdnk09c0jhdv2p9k6m0hrcf4zs";
const CONTRACT: &str = "cosmos2contract";

fn setup_msg() -> InstantiateMsg {
    InstantiateMsg {
        name: String::from("KJuno"),
        symbol: String::from("Klubj"),
        decimals: 8,
        cfo: None,
        min_withdrawal: 5,
    }
}

fn info(sender: &str, coins: &[(&str, u128)]) -> MessageInfo {
    MessageInfo {
        sender: String::from(sender),
        funds: coins
            .iter()
            .map(|(d, a)| Coin { denom: String::from(*d), amount: *a })
            .collect(),
    }
}

fn fresh(sender: &str) -> (Ledger, TokenInfo) {
    instantiate(&info(sender, &[]), &String::from(CONTRACT), setup_msg())
}

fn staked_sum(ledger: &Ledger) -> u128 {
    ledger.clients.records.iter().map(|c| c.nb_token_staked).sum()
}

fn to_cw20(token: &TokenInfo) -> cw20_base::state::TokenInfo {
    cw20_base::state::TokenInfo {
        name: token.name.clone(),
        symbol: token.symbol.clone(),
        decimals: token.decimals,
        total_supply: Uint128::from(token.total_supply),
        mint: token.mint.as_ref().map(|m| cw20_base::state::MinterData {
            minter: Addr::unchecked(m.minter.clone()),
            cap: m.cap.map(Uint128::from),
        }),
    }
}

#[test]
fn test_instantiate() {
    let msg = setup_msg();
    let (ledger, token) = instantiate(&info(ADDR1, &[("upebble", 100)]), &String::from(CONTRACT), msg.clone());
    let mut deps = mock_dependencies();
    TOKEN_INFO.save(deps.as_mut().storage, &to_cw20(&token)).unwrap();
    let queried = query_token_info(deps.as_ref()).unwrap();
    assert_eq!(&queried.name, &msg.name);
    assert_eq!(&queried.symbol, &msg.symbol);
    assert_eq!(queried.decimals, msg.decimals);
    assert_eq!(queried.total_supply, Uint128::zero());
    assert_eq!(ledger.state.cfo_addr, ADDR1);
    assert_eq!(ledger.state.admin_addr, ADDR1);
    assert_eq!(ledger.state.token_denom, "upebble");
    assert_eq!(ledger.state.min_withdrawal, 5);
    assert_eq!(ledger.pool, Pool::default());
    assert!(ledger.clients.clients_list.clients_list.is_empty());
    assert_eq!(token.mint.unwrap().minter, CONTRACT);
}

#[test]
fn test_execute_fail() {
    let sender = info(ADDR1, &[("utokenfail", 100)]);
    let (mut ledger, _) = instantiate(&sender, &String::from(CONTRACT), setup_msg());
    let err = execute(&mut ledger, &sender, ExecuteMsg::Deposit {}).unwrap_err();
    assert_eq!(err, ContractError::WrongPaymentTokenError);
    assert_eq!(ledger.pool.pool_total_amount, 0);
}

#[test]
fn test_execute_ok() {
    let sender = info(ADDR1, &[("upebble", 100)]);
    let (mut ledger, token) = instantiate(&sender, &String::from(CONTRACT), setup_msg());
    let mut deps = mock_dependencies();
    let env = mock_env();
    TOKEN_INFO.save(deps.as_mut().storage, &to_cw20(&token)).unwrap();

    let action = execute(&mut ledger, &sender, ExecuteMsg::Deposit {}).unwrap();
    assert_eq!(action, TokenAction::Mint { recipient: String::from(ADDR1), amount: 100 });
    if let TokenAction::Mint { recipient, amount } = action {
        let minter = token.mint.unwrap().minter;
        execute_mint(deps.as_mut(), env.clone(), mock_info(&minter, &[]), recipient, Uint128::from(amount))
            .unwrap();
    }
    let res = query_balance(deps.as_ref(), String::from(ADDR1)).unwrap();
    assert_eq!(res.balance, Uint128::from(100u128));
}

#[test]
fn setup_with_financial_officer() {
    let mut msg = setup_msg();
    msg.cfo = Some(String::from("officer"));
    let (ledger, token) = instantiate(&info("creator", &[]), &String::from(CONTRACT), msg);
    assert_eq!(ledger.state.cfo_addr, "officer");
    assert_eq!(ledger.state.admin_addr, "creator");
    assert_eq!(token.total_supply, 0);
    assert_eq!(token.mint.unwrap().cap, None);
}

#[test]
fn wrong_denomination_changes_nothing() {
    let (mut ledger, _) = fresh("creator");
    execute_deposit(&mut ledger, &info("d", &[("upebble", 40)])).unwrap();
    let err = execute_deposit(&mut ledger, &info("e", &[("utokenfail", 100)])).unwrap_err();
    assert_eq!(err, ContractError::WrongPaymentTokenError);
    assert_eq!(ledger.pool.pool_total_amount, 40);
    assert_eq!(ledger.pool.pool_total_amount_staked, 40);
    assert_eq!(ledger.clients.clients_list.clients_list, vec![String::from("d")]);
    let err = execute_deposit(&mut ledger, &info("e", &[])).unwrap_err();
    assert_eq!(err, ContractError::WrongPaymentTokenError);
}

#[test]
fn first_deposit_records_client() {
    let (mut ledger, _) = fresh("creator");
    let record = execute_deposit(&mut ledger, &info("d", &[("upebble", 100)])).unwrap();
    assert_eq!(record, DepositRecord { quantity_minted: 100, address_to_mint: String::from("d") });
    assert_eq!(ledger.pool.pool_total_amount, 100);
    assert_eq!(ledger.pool.pool_total_amount_staked, 100);
    assert_eq!(ledger.pool.total_claim, 0);
    assert_eq!(
        ledger.clients.get(&String::from("d")),
        Some(Client { nb_token_staked: 100, yield_generated: 0 })
    );
}

#[test]
fn second_deposit_same_identity() {
    let (mut ledger, token) = fresh("creator");
    let mut deps = mock_dependencies();
    let env = mock_env();
    TOKEN_INFO.save(deps.as_mut().storage, &to_cw20(&token)).unwrap();
    for amount in [100u128, 50] {
        let action = execute(&mut ledger, &info(ADDR1, &[("upebble", amount)]), ExecuteMsg::Deposit {}).unwrap();
        if let TokenAction::Mint { recipient, amount } = action {
            execute_mint(deps.as_mut(), env.clone(), mock_info(CONTRACT, &[]), recipient, Uint128::from(amount))
                .unwrap();
        }
    }
    assert_eq!(ledger.clients.list_all(), vec![String::from(ADDR1)]);
    assert_eq!(ledger.clients.get(&String::from(ADDR1)).unwrap().nb_token_staked, 150);
    assert_eq!(ledger.pool.pool_total_amount, 150);
    let res = query_balance(deps.as_ref(), String::from(ADDR1)).unwrap();
    assert_eq!(res.balance, Uint128::from(150u128));
}

#[test]
fn many_deposits_keep_pool_and_registry_consistent() {
    let (mut ledger, _) = fresh("creator");
    let calls = [("a", "upebble", 10u128), ("b", "upebble", 20), ("a", "uother", 99), ("c", "upebble", 0), ("b", "upebble", 5), ("a", "upebble", 7)];
    for (who, denom, amount) in calls {
        let _ = execute_deposit(&mut ledger, &info(who, &[(denom, amount)]));
        assert_eq!(ledger.pool.pool_total_amount_staked, staked_sum(&ledger));
        assert!(ledger.pool.pool_total_amount_staked <= ledger.pool.pool_total_amount);
        assert_eq!(ledger.clients.clients_list.clients_list.len(), ledger.clients.records.len());
    }
    assert_eq!(ledger.clients.list_all(), vec![String::from("a"), String::from("b"), String::from("c")]);
    assert_eq!(ledger.clients.get(&String::from("a")).unwrap().nb_token_staked, 17);
    assert_eq!(ledger.clients.get(&String::from("b")).unwrap().nb_token_staked, 25);
    assert_eq!(ledger.clients.get(&String::from("c")).unwrap().nb_token_staked, 0);
    assert_eq!(ledger.clients.get(&String::from("z")), None);
    assert_eq!(ledger.pool.pool_total_amount, 42);
}

#[test]
fn zero_deposit_creates_record() {
    let (mut ledger, _) = fresh("creator");
    let record = execute_deposit(&mut ledger, &info("d", &[("upebble", 0)])).unwrap();
    assert_eq!(record.quantity_minted, 0);
    assert_eq!(ledger.clients.list_all(), vec![String::from("d")]);
    assert_eq!(ledger.clients.get(&String::from("d")).unwrap().nb_token_staked, 0);
}

#[test]
fn other_coins_are_ignored() {
    let (mut ledger, _) = fresh("creator");
    let record = execute_deposit(&mut ledger, &info("d", &[("uatom", 3), ("upebble", 12), ("ujuno", 4)])).unwrap();
    assert_eq!(record.quantity_minted, 12);
    assert_eq!(ledger.pool.pool_total_amount, 12);
}

#[test]
fn overflow_is_refused_without_change() {
    let (mut ledger, _) = fresh("creator");
    execute_deposit(&mut ledger, &info("d", &[("upebble", u128::MAX - 1)])).unwrap();
    let err = execute_deposit(&mut ledger, &info("e", &[("upebble", 2)])).unwrap_err();
    assert_eq!(err, ContractError::Overflow);
    assert_eq!(ledger.pool.pool_total_amount, u128::MAX - 1);
    assert_eq!(ledger.clients.list_all(), vec![String::from("d")]);
    execute_deposit(&mut ledger, &info("e", &[("upebble", 1)])).unwrap();
    assert_eq!(ledger.pool.pool_total_amount, u128::MAX);
}

#[test]
fn find_payment_picks_the_accepted_denomination() {
    let funds = info("d", &[("a", 1), ("b", 2), ("c", 3)]).funds;
    assert_eq!(find_payment(&funds, &String::from("b")), Some(2));
    assert_eq!(find_payment(&funds, &String::from("x")), None);
    assert_eq!(find_payment(&Vec::new(), &String::from("a")), None);
}

#[test]
fn registry_upsert_and_list() {
    let mut registry = ClientRegistry::new();
    registry.upsert(&String::from("x"), 3);
    registry.upsert(&String::from("y"), 4);
    registry.upsert(&String::from("x"), 5);
    assert_eq!(registry.list_all(), vec![String::from("x"), String::from("y")]);
    assert_eq!(registry.position(&String::from("y")), Some(1));
    assert_eq!(registry.get(&String::from("x")), Some(Client { nb_token_staked: 8, yield_generated: 0 }));
}

#[test]
fn token_actions_are_forwarded() {
    let (mut ledger, _) = fresh("creator");
    let sender = info("d", &[("upebble", 9)]);
    let t = execute(&mut ledger, &sender, ExecuteMsg::Transfer { recipient: String::from("r"), amount: 3 }).unwrap();
    assert_eq!(t, TokenAction::Transfer { recipient: String::from("r"), amount: 3 });
    let b = execute(&mut ledger, &sender, ExecuteMsg::Burn { amount: 2 }).unwrap();
    assert_eq!(b, TokenAction::Burn { amount: 2 });
    let s = execute(&mut ledger, &sender, ExecuteMsg::Send { contract: String::from("c"), amount: 1, msg: vec![1, 2] }).unwrap();
    assert_eq!(s, TokenAction::Send { contract: String::from("c"), amount: 1, msg: vec![1, 2] });
    assert_eq!(ledger.pool, Pool::default());
    assert!(ledger.clients.list_all().is_empty());
}

#[test]
fn record_deposit_raises_both_totals() {
    let mut pool = Pool { pool_total_amount: 10, pool_total_amount_staked: 4, total_claim: 2 };
    pool.record_deposit(6);
    assert_eq!(pool, Pool { pool_total_amount: 16, pool_total_amount_staked: 10, total_claim: 2 });
}
