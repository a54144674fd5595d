use spot_lite::balance::get_balance;
use spot_lite::contract::{
    execute, instantiate, migrate, query, sudo, upgrade_verdict, CONTRACT_NAME, CONTRACT_VERSION,
};
use spot_lite::decimal::Decimal;
use spot_lite::error::{ContractError, StdError};
use spot_lite::msg::{
    BankMsg, Coin, ExecuteMsg, InstantiateMsg, MessageInfo, MigrateMsg, QueryMsg, QueryResponse,
    Response, ResponseData, SudoMsg,
};
use spot_lite::order::get_order;
use spot_lite::state::{
    Balance, DepositInfo, OrderData, OrderPlacement, PositionDirection, PositionEffect,
    SettlementEntry,
};
use spot_lite::storage::Storage;
use spot_lite::testing::{vanilla_order_placement, vanilla_settlement_entry};

fn mock_info(sender: &str, funds: &[Coin]) -> MessageInfo {
    MessageInfo { sender: sender.to_owned(), funds: funds.to_vec() }
}

fn open_data(n: usize) -> Vec<Option<OrderData>> {
    vec![Some(OrderData { position_effect: PositionEffect::Open }); n]
}

fn instantiated() -> Storage {
    let mut storage = Storage::new();
    instantiate(&mut storage, mock_info("admin", &[]), InstantiateMsg {}).unwrap();
    storage
}

fn place(storage: &mut Storage, orders: Vec<OrderPlacement>, deposits: Vec<DepositInfo>) -> Response {
    let data = open_data(orders.len());
    sudo(storage, SudoMsg::BulkOrderPlacements { orders, deposits }, data).unwrap()
}

fn unsuccessful_ids(res: &Response) -> Vec<u64> {
    match &res.data {
        Some(ResponseData::BulkOrderPlacements(r)) => r.unsuccessful_orders.iter().map(|u| u.id).collect(),
        _ => panic!("Should have returned the placement report"),
    }
}

fn deposit_info(denom: &str) -> DepositInfo {
    DepositInfo { account: "test".to_owned(), denom: denom.to_owned(), amount: Decimal::one() }
}

#[test]
fn test_query() {
    let mut deps = instantiated();

    let buy_order_placement = vanilla_order_placement();
    // place a buy order
    place(&mut deps, vec![buy_order_placement.to_owned()], vec![deposit_info("usei")]);

    let balance_query = QueryMsg::GetBalance { account: "test".to_owned(), denom: "usei".to_owned() };
    let resp = query(&deps, balance_query).unwrap();
    match resp {
        QueryResponse::Balance(resp) => assert_eq!(
            Balance { amount: Decimal::one(), withheld: Decimal::one() },
            resp.balance
        ),
        _ => panic!("Should have answered with a balance"),
    }

    let order_query = QueryMsg::GetOrder { id: 0 };
    let resp = query(&deps, order_query).unwrap();
    match resp {
        QueryResponse::Order(resp) => assert_eq!(
            buy_order_placement
                .to_order(Some(OrderData { position_effect: PositionEffect::Open }))
                .unwrap(),
            resp.order
        ),
        _ => panic!("Should have answered with an order"),
    }
}

#[test]
fn test_query_missing_order() {
    let deps = instantiated();
    assert_eq!(
        Err(StdError::not_found(
            "type: spot_lite::state::Order; key: [00, 05, 6F, 72, 64, 65, 72, 00, 00, 00, 00, 00, 00, 00, 04]"
        )),
        query(&deps, QueryMsg::GetOrder { id: 4 })
    );
}

#[test]
fn test_deposit_withdraw() {
    let mut deps = instantiated();

    let msg = ExecuteMsg::Deposit {};
    execute(&mut deps, mock_info("test", &vec![Coin::new(100, "usei")]), msg).unwrap();
    let balance = get_balance(&deps, "test".to_owned(), "usei".to_owned());
    assert_eq!(balance.amount, Decimal::from_atomics(100u128, 0).unwrap());
    assert_eq!(balance.withheld, Decimal::zero());

    let msg = ExecuteMsg::Withdraw { coins: vec![Coin::new(150, "usei")] };
    match execute(&mut deps, mock_info("test", &[]), msg) {
        Ok(_) => panic!("Withdrawing more than you have is no ok"),
        Err(_) => (),
    };
    let msg = ExecuteMsg::Withdraw { coins: vec![Coin::new(99, "usei")] };
    let res = execute(&mut deps, mock_info("test", &[]), msg).unwrap();
    assert_eq!(
        vec![BankMsg::Send { to_address: "test".to_owned(), amount: vec![Coin::new(99, "usei")] }],
        res.messages
    );
    let balance = get_balance(&deps, "test".to_owned(), "usei".to_owned());
    assert_eq!(balance.amount, Decimal::one());
    assert_eq!(balance.withheld, Decimal::zero());
}

#[test]
fn test_withdraw_refused_is_insufficient_fund() {
    let mut deps = instantiated();
    let msg = ExecuteMsg::Withdraw { coins: vec![Coin::new(1, "usei")] };
    assert_eq!(Err(ContractError::InsufficientFund()), execute(&mut deps, mock_info("test", &[]), msg));
}

#[test]
fn test_withdraw_keeps_withheld_funds() {
    let mut deps = instantiated();
    place(&mut deps, vec![vanilla_order_placement()], vec![deposit_info("usei")]);
    execute(&mut deps, mock_info("test", &[Coin::new(2, "usei")]), ExecuteMsg::Deposit {}).unwrap();
    // 3 usei held, 1 withheld: 3 cannot be taken out, 2 can
    let too_much = ExecuteMsg::Withdraw { coins: vec![Coin::new(3, "usei")] };
    assert!(execute(&mut deps, mock_info("test", &[]), too_much).is_err());
    let mut deps = instantiated();
    place(&mut deps, vec![vanilla_order_placement()], vec![deposit_info("usei")]);
    execute(&mut deps, mock_info("test", &[Coin::new(2, "usei")]), ExecuteMsg::Deposit {}).unwrap();
    let fits = ExecuteMsg::Withdraw { coins: vec![Coin::new(2, "usei")] };
    execute(&mut deps, mock_info("test", &[]), fits).unwrap();
    let balance = get_balance(&deps, "test".to_owned(), "usei".to_owned());
    assert_eq!(Balance { amount: Decimal::one(), withheld: Decimal::one() }, balance);
}

#[test]
fn test_deposit_then_withdraw_restores_balance() {
    let mut deps = instantiated();
    execute(&mut deps, mock_info("test", &[Coin::new(7, "usei")]), ExecuteMsg::Deposit {}).unwrap();
    let before = get_balance(&deps, "test".to_owned(), "usei".to_owned());
    execute(&mut deps, mock_info("test", &[Coin::new(5, "usei")]), ExecuteMsg::Deposit {}).unwrap();
    execute(&mut deps, mock_info("test", &[]), ExecuteMsg::Withdraw { coins: vec![Coin::new(5, "usei")] })
        .unwrap();
    assert_eq!(before, get_balance(&deps, "test".to_owned(), "usei".to_owned()));
}

#[test]
fn test_bulk_order_placements() {
    let mut deps = instantiated();

    let buy_order_placement = vanilla_order_placement();
    // unsuccessful due to insufficient funds
    let res = place(&mut deps, vec![buy_order_placement.to_owned()], vec![]);
    let ids = unsuccessful_ids(&res);
    assert_eq!(1, ids.len());
    assert_eq!(0, ids[0]);
    match get_order(&deps, 0) {
        Ok(_) => panic!("Order shouldn't exist"),
        Err(_) => (),
    };

    // successful because of deposit
    let res = place(&mut deps, vec![buy_order_placement.to_owned()], vec![deposit_info("usei")]);
    assert_eq!(0, unsuccessful_ids(&res).len());
    let order = get_order(&deps, 0).unwrap();
    assert_eq!(0, order.id);
    let balance = get_balance(&deps, "test".to_owned(), "usei".to_owned());
    assert_eq!(Decimal::one(), balance.amount);
    assert_eq!(Decimal::one(), balance.withheld);

    // unsuccessful due to withholding
    let buy_order_placement_2 = OrderPlacement { id: 1, ..buy_order_placement.to_owned() };
    let res = place(&mut deps, vec![buy_order_placement_2.to_owned()], vec![]);
    let ids = unsuccessful_ids(&res);
    assert_eq!(1, ids.len());
    assert_eq!(1, ids[0]);
    match get_order(&deps, 1) {
        Ok(_) => panic!("Order shouldn't exist"),
        Err(_) => (),
    };

    // unsuccessful due to wrong deposit
    let sell_order_placement = OrderPlacement { id: 2, position_direction: 1, ..buy_order_placement.to_owned() };
    let res = place(&mut deps, vec![sell_order_placement.to_owned()], vec![deposit_info("usei")]);
    let ids = unsuccessful_ids(&res);
    assert_eq!(1, ids.len());
    assert_eq!(2, ids[0]);
    match get_order(&deps, 2) {
        Ok(_) => panic!("Order shouldn't exist"),
        Err(_) => (),
    };

    // successful sell
    let res = place(&mut deps, vec![sell_order_placement.to_owned()], vec![deposit_info("uatom")]);
    assert_eq!(0, unsuccessful_ids(&res).len());
    let order = get_order(&deps, 2).unwrap();
    assert_eq!(2, order.id);
    let balance = get_balance(&deps, "test".to_owned(), "uatom".to_owned());
    assert_eq!(Decimal::one(), balance.amount);
    assert_eq!(Decimal::one(), balance.withheld);
}

#[test]
fn test_refusal_reason_is_insufficient_balance() {
    let mut deps = instantiated();
    let res = place(&mut deps, vec![vanilla_order_placement()], vec![]);
    match res.data {
        Some(ResponseData::BulkOrderPlacements(r)) => {
            assert_eq!("Insufficient balance", r.unsuccessful_orders[0].reason)
        }
        _ => panic!("Should have returned the placement report"),
    }
    assert!(res.messages.is_empty());
}

#[test]
fn test_placement_with_unreadable_data_is_refused() {
    let mut deps = instantiated();
    let msg = SudoMsg::BulkOrderPlacements {
        orders: vec![vanilla_order_placement()],
        deposits: vec![deposit_info("usei")],
    };
    assert_eq!(Err(ContractError::InvalidOrderData()), sudo(&mut deps, msg, vec![None]));
}

#[test]
fn test_buy_withholds_price_times_quantity() {
    let mut deps = instantiated();
    let placement = OrderPlacement {
        price: Decimal::from_atomics(25u128, 1).unwrap(),
        quantity: Decimal::from_atomics(2u128, 0).unwrap(),
        ..vanilla_order_placement()
    };
    let deposit = DepositInfo {
        account: "test".to_owned(),
        denom: "usei".to_owned(),
        amount: Decimal::from_atomics(6u128, 0).unwrap(),
    };
    let res = place(&mut deps, vec![placement], vec![deposit]);
    assert_eq!(0, unsuccessful_ids(&res).len());
    let balance = get_balance(&deps, "test".to_owned(), "usei".to_owned());
    assert_eq!(Decimal::from_atomics(6u128, 0).unwrap(), balance.amount);
    assert_eq!(Decimal::from_atomics(5u128, 0).unwrap(), balance.withheld);
}

#[test]
fn test_process_settlements() {
    let mut deps = instantiated();

    let buy_order_placement = vanilla_order_placement();
    // place a buy order
    place(&mut deps, vec![buy_order_placement.to_owned()], vec![deposit_info("usei")]);

    // settle buy order
    let buy_settlement = vanilla_settlement_entry();
    let msg = SudoMsg::Settlement { epoch: 0, entries: vec![buy_settlement] };
    let res = sudo(&mut deps, msg, vec![]).unwrap();
    assert_eq!(1, res.messages.len());
    assert_eq!(
        BankMsg::Send { to_address: "test".to_owned(), amount: vec![Coin::new(1, "uatom")] },
        res.messages[0]
    );
    match get_order(&deps, 0) {
        Ok(_) => panic!("Order shouldn't exist"),
        Err(_) => (),
    };
    let balance = get_balance(&deps, "test".to_owned(), "usei".to_owned());
    assert_eq!(Decimal::zero(), balance.amount);
    assert_eq!(Decimal::zero(), balance.withheld);

    // place a sell order
    let sell_order_placement = OrderPlacement { id: 1, position_direction: 1, ..vanilla_order_placement() };
    place(&mut deps, vec![sell_order_placement.to_owned()], vec![deposit_info("uatom")]);

    // settle sell order
    let sell_settlement = SettlementEntry {
        order_id: 1,
        position_direction: PositionDirection::Short,
        ..vanilla_settlement_entry()
    };
    let msg = SudoMsg::Settlement { epoch: 0, entries: vec![sell_settlement] };
    let res = sudo(&mut deps, msg, vec![]).unwrap();
    assert_eq!(1, res.messages.len());
    assert_eq!(
        BankMsg::Send { to_address: "test".to_owned(), amount: vec![Coin::new(1, "usei")] },
        res.messages[0]
    );
    match get_order(&deps, 1) {
        Ok(_) => panic!("Order shouldn't exist"),
        Err(_) => (),
    };
    let balance = get_balance(&deps, "test".to_owned(), "uatom".to_owned());
    assert_eq!(Decimal::zero(), balance.amount);
    assert_eq!(Decimal::zero(), balance.withheld);
}

#[test]
fn test_partial_fill_keeps_order() {
    let mut deps = instantiated();
    let placement = OrderPlacement { quantity: Decimal::from_atomics(3u128, 0).unwrap(), ..vanilla_order_placement() };
    let deposit = DepositInfo {
        account: "test".to_owned(),
        denom: "usei".to_owned(),
        amount: Decimal::from_atomics(3u128, 0).unwrap(),
    };
    place(&mut deps, vec![placement], vec![deposit]);
    let msg = SudoMsg::Settlement { epoch: 0, entries: vec![vanilla_settlement_entry()] };
    let res = sudo(&mut deps, msg, vec![]).unwrap();
    assert_eq!(
        BankMsg::Send { to_address: "test".to_owned(), amount: vec![Coin::new(1, "uatom")] },
        res.messages[0]
    );
    let order = get_order(&deps, 0).unwrap();
    assert_eq!(Decimal::from_atomics(2u128, 0).unwrap(), order.remaining_quantity);
    let balance = get_balance(&deps, "test".to_owned(), "usei".to_owned());
    assert_eq!(Decimal::from_atomics(2u128, 0).unwrap(), balance.amount);
    assert_eq!(Decimal::from_atomics(2u128, 0).unwrap(), balance.withheld);
}

#[test]
fn test_settlement_of_unknown_order_is_skipped() {
    let mut deps = instantiated();
    let msg = SudoMsg::Settlement { epoch: 0, entries: vec![vanilla_settlement_entry()] };
    let res = sudo(&mut deps, msg, vec![]).unwrap();
    assert!(res.messages.is_empty());
    assert!(res.data.is_none());
}

#[test]
fn test_settlement_too_large_is_refused() {
    let mut deps = instantiated();
    place(&mut deps, vec![vanilla_order_placement()], vec![deposit_info("usei")]);
    let entry = SettlementEntry {
        quantity: Decimal::from_atomics(2u128, 0).unwrap(),
        ..vanilla_settlement_entry()
    };
    let msg = SudoMsg::Settlement { epoch: 0, entries: vec![entry] };
    assert_eq!(
        Err(ContractError::InvalidSettlement("Quantity too large".to_owned())),
        sudo(&mut deps, msg, vec![])
    );
}

#[test]
fn test_settlement_beyond_withheld_is_refused() {
    let mut deps = instantiated();
    place(&mut deps, vec![vanilla_order_placement()], vec![deposit_info("usei")]);
    let entry = SettlementEntry {
        execution_cost_or_proceed: Decimal::from_atomics(2u128, 0).unwrap(),
        ..vanilla_settlement_entry()
    };
    let msg = SudoMsg::Settlement { epoch: 0, entries: vec![entry] };
    assert_eq!(
        Err(ContractError::InvalidSettlement("Insufficient withheld balance".to_owned())),
        sudo(&mut deps, msg, vec![])
    );
}

#[test]
fn test_bulk_order_cancellations() {
    let mut deps = instantiated();

    let buy_order_placement = vanilla_order_placement();
    // place a buy order
    place(&mut deps, vec![buy_order_placement.to_owned()], vec![deposit_info("usei")]);

    // cancel buy order
    let msg = SudoMsg::BulkOrderCancellations { ids: vec![0] };
    sudo(&mut deps, msg, vec![]).unwrap();
    match get_order(&deps, 0) {
        Ok(_) => panic!("Order shouldn't exist"),
        Err(_) => (),
    };
    let balance = get_balance(&deps, "test".to_owned(), "usei".to_owned());
    assert_eq!(Decimal::one(), balance.amount);
    assert_eq!(Decimal::zero(), balance.withheld);

    // place a sell order
    let sell_order_placement = OrderPlacement { id: 1, position_direction: 1, ..vanilla_order_placement() };
    place(&mut deps, vec![sell_order_placement.to_owned()], vec![deposit_info("uatom")]);

    // cancel sell order
    let msg = SudoMsg::BulkOrderCancellations { ids: vec![1] };
    sudo(&mut deps, msg, vec![]).unwrap();
    match get_order(&deps, 1) {
        Ok(_) => panic!("Order shouldn't exist"),
        Err(_) => (),
    };
    let balance = get_balance(&deps, "test".to_owned(), "uatom".to_owned());
    assert_eq!(Decimal::one(), balance.amount);
    assert_eq!(Decimal::zero(), balance.withheld);
}

#[test]
fn test_cancel_restores_withheld_after_placement() {
    let mut deps = instantiated();
    execute(&mut deps, mock_info("test", &[Coin::new(10, "usei")]), ExecuteMsg::Deposit {}).unwrap();
    let before = get_balance(&deps, "test".to_owned(), "usei".to_owned());
    let placement = OrderPlacement {
        id: 5,
        price: Decimal::from_atomics(33u128, 1).unwrap(),
        quantity: Decimal::from_atomics(3u128, 0).unwrap(),
        ..vanilla_order_placement()
    };
    let res = place(&mut deps, vec![placement], vec![]);
    assert_eq!(0, unsuccessful_ids(&res).len());
    assert_ne!(before, get_balance(&deps, "test".to_owned(), "usei".to_owned()));
    sudo(&mut deps, SudoMsg::BulkOrderCancellations { ids: vec![5, 6] }, vec![]).unwrap();
    assert_eq!(before, get_balance(&deps, "test".to_owned(), "usei".to_owned()));
}

#[test]
fn test_liquidation_reports_nothing() {
    let mut deps = instantiated();
    let res = sudo(&mut deps, SudoMsg::Liquidation { requests: vec![] }, vec![]).unwrap();
    match res.data {
        Some(ResponseData::Liquidation(r)) => {
            assert!(r.successful_accounts.is_empty());
            assert!(r.liquidation_orders.is_empty());
        }
        _ => panic!("Should have returned a liquidation report"),
    }
}

#[test]
fn test_migration() {
    let mut deps = Storage::new();
    let instantiate_msg = InstantiateMsg {};
    let info = mock_info("", &vec![]);
    instantiate(&mut deps, info.clone(), instantiate_msg).unwrap();

    // test incorrect contract name to assert error
    deps.set_contract_version("this_is_the_wrong_contract".to_owned(), "0.0.1".to_owned());
    let res = migrate(&mut deps, MigrateMsg {});
    match res {
        Err(ContractError::Std(x)) => {
            assert_eq!(x, StdError::generic_err("Can only upgrade from same type"))
        }
        _ => panic!("This should raise error on contract type mismatch"),
    };
}

#[test]
fn test_migration_from_older_version() {
    let mut deps = Storage::new();
    deps.set_contract_version(CONTRACT_NAME.to_owned(), "0.0.1".to_owned());
    migrate(&mut deps, MigrateMsg {}).unwrap();
    assert_eq!(
        Some((CONTRACT_NAME.to_owned(), CONTRACT_VERSION.to_owned())),
        deps.contract_version()
    );
}

#[test]
fn test_migration_to_same_or_older_version_is_refused() {
    let mut deps = instantiated();
    assert_eq!(
        Err(ContractError::Std(StdError::generic_err("Cannot upgrade from a newer version"))),
        migrate(&mut deps, MigrateMsg {})
    );
    deps.set_contract_version(CONTRACT_NAME.to_owned(), "9.1.0".to_owned());
    assert!(migrate(&mut deps, MigrateMsg {}).is_err());
}

#[test]
fn test_migration_with_bad_version_text() {
    let mut deps = Storage::new();
    deps.set_contract_version(CONTRACT_NAME.to_owned(), "not a version".to_owned());
    match migrate(&mut deps, MigrateMsg {}) {
        Err(ContractError::SemVer(m)) => assert!(!m.is_empty()),
        _ => panic!("Should have refused an unreadable version"),
    }
}

#[test]
fn test_migration_without_version_is_not_found() {
    let mut deps = Storage::new();
    assert_eq!(
        Err(ContractError::Std(StdError::not_found(
            "type: cw2::ContractVersion; key: [63, 6F, 6E, 74, 72, 61, 63, 74, 5F, 69, 6E, 66, 6F]"
        ))),
        migrate(&mut deps, MigrateMsg {})
    );
}

#[test]
fn test_upgrade_verdict() {
    assert_eq!(Ok(()), upgrade_verdict(None, None, false));
    assert_eq!(
        Err(ContractError::Std(StdError::generic_err("Cannot upgrade from a newer version"))),
        upgrade_verdict(None, None, true)
    );
    assert_eq!(
        Err(ContractError::SemVer("bad stored".to_owned())),
        upgrade_verdict(Some("bad stored".to_owned()), Some("bad current".to_owned()), true)
    );
    assert_eq!(
        Err(ContractError::SemVer("bad current".to_owned())),
        upgrade_verdict(None, Some("bad current".to_owned()), false)
    );
}

#[test]
fn test_refused_withdraw_leaves_balance() {
    let mut deps = instantiated();
    execute(&mut deps, mock_info("test", &[Coin::new(100, "usei")]), ExecuteMsg::Deposit {}).unwrap();
    let msg = ExecuteMsg::Withdraw { coins: vec![Coin::new(150, "usei")] };
    assert_eq!(Err(ContractError::InsufficientFund()), execute(&mut deps, mock_info("test", &[]), msg));
    let balance = get_balance(&deps, "test".to_owned(), "usei".to_owned());
    assert_eq!(Balance { amount: Decimal::from_atomics(100u128, 0).unwrap(), withheld: Decimal::zero() }, balance);
}

#[test]
fn test_refused_settlement_leaves_order_and_balance() {
    let mut deps = instantiated();
    place(&mut deps, vec![vanilla_order_placement()], vec![deposit_info("usei")]);
    let entry = SettlementEntry { quantity: Decimal::from_atomics(2u128, 0).unwrap(), ..vanilla_settlement_entry() };
    let msg = SudoMsg::Settlement { epoch: 0, entries: vec![entry] };
    assert!(sudo(&mut deps, msg, vec![]).is_err());
    assert_eq!(Decimal::one(), get_order(&deps, 0).unwrap().remaining_quantity);
    let balance = get_balance(&deps, "test".to_owned(), "usei".to_owned());
    assert_eq!(Balance { amount: Decimal::one(), withheld: Decimal::one() }, balance);
}
