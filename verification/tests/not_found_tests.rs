use cosmwasm_std::testing::MockStorage;
use cosmwasm_std::StdError;
use spot_lite::not_found::{contract_info_storage_key_bytes, object_info, order_storage_key_bytes};

#[test]
fn test_order_key_is_namespace_then_big_endian_id() {
    assert_eq!(
        vec![0x00, 0x05, b'o', b'r', b'd', b'e', b'r', 0x01, 0x02, 0x03, 0x04, 0x05, 0x06, 0x07, 0xA8],
        order_storage_key_bytes(0x01020304050607A8)
    );
    assert_eq!(b"contract_info".to_vec(), contract_info_storage_key_bytes());
}

#[test]
fn test_object_info_text() {
    assert_eq!("type: T; key: []", object_info("T", &vec![]));
    assert_eq!("type: T; key: [0A]", object_info("T", &vec![10]));
    assert_eq!("type: a::B; key: [00, FF, 7C]", object_info("a::B", &vec![0, 255, 0x7C]));
}

#[test]
fn test_missing_contract_version_reads_as_cw2_reports_it() {
    let store = MockStorage::new();
    let expected = match cw2::get_contract_version(&store) {
        Err(StdError::NotFound { kind, .. }) => kind,
        _ => panic!("an empty storage has no contract version"),
    };
    assert_eq!(expected, object_info("cw2::ContractVersion", &contract_info_storage_key_bytes()));
}

#[test]
fn test_missing_order_key_reads_as_the_order_map_reports_it() {
    let store = MockStorage::new();
    let orders: cw_storage_plus::Map<u64, String> = cw_storage_plus::Map::new("order");
    let id: u64 = 0x0102_0304_0506_0708;
    let reported = match orders.load(&store, id) {
        Err(StdError::NotFound { kind, .. }) => kind,
        _ => panic!("an empty storage has no order"),
    };
    let ours = object_info("x", &order_storage_key_bytes(id));
    let key_part = |s: &str| s[s.find("; key: ").unwrap()..].to_owned();
    assert_eq!(key_part(&reported), key_part(&ours));
}
