use spot_lite::encoding::json_response_bytes;

#[test]
fn test_json_response_bytes_are_the_text() {
    let json = "{\"unsuccessful_orders\":[{\"id\":0,\"reason\":\"Insufficient balance\"}]}";
    assert_eq!(json.as_bytes().to_vec(), json_response_bytes(json));
    assert_eq!(Vec::<u8>::new(), json_response_bytes(""));
    assert_eq!("é✓".as_bytes().to_vec(), json_response_bytes("é✓"));
}
