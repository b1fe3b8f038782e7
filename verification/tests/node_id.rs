use replicator::node_id::parse_node_id;
use replicator::node_id::NodeIdError;

#[test]
fn parse_node_id_rules() {
    assert!(parse_node_id(&"a".repeat(64)).is_ok());
    assert!(parse_node_id(&"a".repeat(63)).is_err());
    assert!(parse_node_id("zz").is_err());
}

#[test]
fn parse_node_id_roundtrips_through_hex() {
    let raw = [7u8; 32];
    let hexed = hex::encode(raw);
    let parsed = parse_node_id(&hexed).unwrap();
    assert_eq!(parsed.as_ref(), &raw[..]);
}

#[test]
fn parse_node_id_rejects_too_long_and_empty() {
    assert!(parse_node_id("").is_err());
    assert!(parse_node_id(&"a".repeat(66)).is_err()); // 33 bytes
    assert!(parse_node_id(&"a".repeat(65)).is_err()); // odd hex length
}

#[test]
fn node_id_digits_are_read_in_either_case_and_order() {
    let mut text = "0123456789abcdefABCDEF".to_string();
    text.push_str(&"0".repeat(64 - text.len()));
    let id = parse_node_id(&text).unwrap();
    let head = [0x01, 0x23, 0x45, 0x67, 0x89, 0xab, 0xcd, 0xef, 0xab, 0xcd, 0xef, 0x00];
    assert_eq!(id[..12], head);
}

#[test]
fn node_id_errors_tell_digits_from_length() {
    assert_eq!(parse_node_id(""), Err(NodeIdError::WrongLength));
    assert_eq!(parse_node_id(&"a".repeat(66)), Err(NodeIdError::WrongLength));
    assert_eq!(parse_node_id(&"a".repeat(65)), Err(NodeIdError::NotHex));
    assert_eq!(parse_node_id(&"g".repeat(64)), Err(NodeIdError::NotHex));
    assert_eq!(parse_node_id(&"é".repeat(32)), Err(NodeIdError::NotHex));
    assert_eq!(NodeIdError::NotHex.message(), "node id must be hex");
    assert_eq!(NodeIdError::WrongLength.message(), "node id must be 32 bytes (64 hex chars)");
}

#[test]
fn every_byte_round_trips_in_a_node_id() {
    for start in (0..=255u8).step_by(32) {
        let mut raw = [0u8; 32];
        for (i, byte) in raw.iter_mut().enumerate() {
            *byte = start + i as u8;
        }
        assert_eq!(parse_node_id(&hex::encode(raw)), Ok(raw));
        assert_eq!(parse_node_id(&hex::encode_upper(raw)), Ok(raw));
    }
}
