use spot_lite::balance::{get_balance, save_balance};
use spot_lite::decimal::Decimal;
use spot_lite::error::StdError;
use spot_lite::order::{delete_order, get_order, save_order};
use spot_lite::state::{
    Balance, Order, OrderData, OrderPlacement, OrderType, PositionDirection, PositionEffect,
};
use spot_lite::state::{i32_to_direction, i32_to_order_type};
use spot_lite::storage::Storage;
use spot_lite::utils::decimal_to_u128;

const TEST_ACCOUNT: &str = "account";
const TEST_DENOM: &str = "denom";
const TEST_PRICE_DENOM: &str = "price";
const TEST_ASSET_DENOM: &str = "asset";

fn sample_order(id: u64) -> Order {
    Order {
        id,
        account: TEST_ACCOUNT.to_owned(),
        price_denom: TEST_PRICE_DENOM.to_owned(),
        asset_denom: TEST_ASSET_DENOM.to_owned(),
        price: Decimal::from_atomics(123u128, 0).unwrap(),
        quantity: Decimal::from_atomics(456u128, 0).unwrap(),
        remaining_quantity: Decimal::from_atomics(456u128, 0).unwrap(),
        direction: PositionDirection::Long,
        effect: PositionEffect::Open,
        order_type: OrderType::Limit,
    }
}

#[test]
fn test_save_get_balance() {
    let mut storage = Storage::new();
    let balance = Balance {
        amount: Decimal::from_atomics(123u128, 0).unwrap(),
        withheld: Decimal::from_atomics(456u128, 0).unwrap(),
    };
    save_balance(&mut storage, TEST_ACCOUNT.to_owned(), TEST_DENOM.to_owned(), &balance);
    let stored_balance = get_balance(&storage, TEST_ACCOUNT.to_owned(), TEST_DENOM.to_owned());
    assert_eq!(balance, stored_balance);
}

#[test]
fn test_unsaved_balance_is_zero() {
    let mut storage = Storage::new();
    let balance = Balance {
        amount: Decimal::from_atomics(5u128, 0).unwrap(),
        withheld: Decimal::zero(),
    };
    save_balance(&mut storage, TEST_ACCOUNT.to_owned(), TEST_DENOM.to_owned(), &balance);
    let other = get_balance(&storage, TEST_ACCOUNT.to_owned(), "other".to_owned());
    assert_eq!(other, Balance { amount: Decimal::zero(), withheld: Decimal::zero() });
    let other = get_balance(&storage, "someone".to_owned(), TEST_DENOM.to_owned());
    assert_eq!(other, Balance { amount: Decimal::zero(), withheld: Decimal::zero() });
}

#[test]
fn test_save_balance_overwrites() {
    let mut storage = Storage::new();
    let first = Balance { amount: Decimal::one(), withheld: Decimal::zero() };
    let second = Balance { amount: Decimal::from_atomics(7u128, 0).unwrap(), withheld: Decimal::one() };
    save_balance(&mut storage, TEST_ACCOUNT.to_owned(), TEST_DENOM.to_owned(), &first);
    save_balance(&mut storage, TEST_ACCOUNT.to_owned(), TEST_DENOM.to_owned(), &second);
    assert_eq!(second, get_balance(&storage, TEST_ACCOUNT.to_owned(), TEST_DENOM.to_owned()));
    assert_eq!(1, storage.balance_records().len());
}

#[test]
fn test_save_get_order() {
    let mut storage = Storage::new();
    let order = sample_order(0);
    save_order(&mut storage, &order);
    let stored_order = get_order(&storage, 0).unwrap();
    assert_eq!(order, stored_order);
}

#[test]
fn test_delete_order() {
    let mut storage = Storage::new();
    let order = sample_order(0);
    save_order(&mut storage, &order);
    delete_order(&mut storage, 0);
    match get_order(&storage, 0) {
        Ok(_) => panic!("Order should have been deleted"),
        Err(_) => (),
    };
}

#[test]
fn test_deleted_order_stays_in_account_index() {
    let mut storage = Storage::new();
    let order = sample_order(3);
    save_order(&mut storage, &order);
    delete_order(&mut storage, 3);
    assert_eq!(Some(order), storage.account_order_entry(&TEST_ACCOUNT.to_owned(), 3));
    assert_eq!(0, storage.order_records().len());
}

#[test]
fn test_get_missing_order_is_not_found() {
    let storage = Storage::new();
    assert_eq!(
        Err(StdError::not_found(
            "type: spot_lite::state::Order; key: [00, 05, 6F, 72, 64, 65, 72, 00, 00, 00, 00, 00, 00, 00, 09]"
        )),
        get_order(&storage, 9)
    );
}

#[test]
fn test_order_placement_to_order() {
    let order_placement = OrderPlacement {
        id: 0,
        status: 0,
        account: "test".to_owned(),
        contract_address: "test".to_owned(),
        price_denom: "usei".to_owned(),
        asset_denom: "uatom".to_owned(),
        price: Decimal::one(),
        quantity: Decimal::one(),
        order_type: 0,
        position_direction: 0,
        data: "{\"position_effect\":\"Open\"}".to_owned(),
    };
    let expected_order = Order {
        id: 0,
        account: "test".to_owned(),
        price_denom: "usei".to_owned(),
        asset_denom: "uatom".to_owned(),
        price: Decimal::one(),
        quantity: Decimal::one(),
        remaining_quantity: Decimal::one(),
        direction: PositionDirection::Long,
        effect: PositionEffect::Open,
        order_type: OrderType::Limit,
    };
    let data = Some(OrderData { position_effect: PositionEffect::Open });
    assert_eq!(order_placement.to_order(data).unwrap(), expected_order);
}

#[test]
fn test_to_order_rejects_unreadable_data() {
    let order_placement = spot_lite::testing::vanilla_order_placement();
    assert_eq!(
        Err(spot_lite::error::ContractError::InvalidOrderData()),
        order_placement.to_order(None)
    );
}

#[test]
fn test_code_conversions() {
    assert_eq!(PositionDirection::Long, i32_to_direction(0));
    assert_eq!(PositionDirection::Short, i32_to_direction(1));
    assert_eq!(PositionDirection::Unknown, i32_to_direction(2));
    assert_eq!(PositionDirection::Unknown, i32_to_direction(-1));
    assert_eq!(OrderType::Limit, i32_to_order_type(0));
    assert_eq!(OrderType::Market, i32_to_order_type(1));
    assert_eq!(OrderType::Liquidation, i32_to_order_type(2));
    assert_eq!(OrderType::Unknown, i32_to_order_type(3));
}

#[test]
pub fn test_decimal_to_u128() {
    let one = Decimal::one();
    assert_eq!(1, decimal_to_u128(one));

    let zero = Decimal::zero();
    assert_eq!(0, decimal_to_u128(zero));

    let ten = Decimal::from_atomics(10u128, 0).unwrap();
    assert_eq!(10, decimal_to_u128(ten));

    let fractional = Decimal::from_atomics(15u128, 1).unwrap();
    assert_eq!(1, decimal_to_u128(fractional));

    let dec1 = Decimal::from_atomics(600u128, 0).unwrap();
    assert_eq!(600, decimal_to_u128(dec1));

    let dec1 = Decimal::from_atomics(600u128, 1).unwrap();
    assert_eq!(60, decimal_to_u128(dec1));

    let dec1 = Decimal::from_atomics(600u128, 3).unwrap();
    assert_eq!(0, decimal_to_u128(dec1));
}

#[test]
fn test_decimal_from_atomics_scales() {
    assert_eq!(1_230_000_000_000_000_000u128, Decimal::from_atomics(123u128, 2).unwrap().atomics());
    assert_eq!(5u128, Decimal::from_atomics(5u128, 18).unwrap().atomics());
    assert_eq!(12u128, Decimal::from_atomics(1234u128, 20).unwrap().atomics());
    assert_eq!(0u128, Decimal::from_atomics(u128::MAX, 60).unwrap().atomics());
    assert!(Decimal::from_atomics(u128::MAX, 0).is_err());
    assert_eq!(18, Decimal::one().decimal_places());
}

#[test]
fn test_decimal_arithmetic() {
    let a = Decimal::from_atomics(15u128, 1).unwrap();
    let b = Decimal::from_atomics(4u128, 0).unwrap();
    assert_eq!(Some(Decimal::from_atomics(6u128, 0).unwrap()), a.checked_mul(b));
    assert_eq!(a.checked_mul(b), b.checked_mul(a));
    assert_eq!(Some(Decimal::from_atomics(55u128, 1).unwrap()), a.checked_add(b));
    assert_eq!(Some(Decimal::from_atomics(25u128, 1).unwrap()), b.checked_sub(a));
    assert_eq!(None, a.checked_sub(b));
    assert_eq!(None, Decimal::raw(u128::MAX).checked_add(Decimal::raw(1)));
    assert_eq!(None, Decimal::raw(u128::MAX).checked_mul(b));
    // rounding down below 10^-18
    let tiny = Decimal::raw(1);
    let half = Decimal::from_atomics(5u128, 1).unwrap();
    assert_eq!(Some(Decimal::zero()), tiny.checked_mul(half));
}
