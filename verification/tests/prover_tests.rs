use near_bridge::prover::{
    get_eth_address, is_valid_eth_address, parse_recipient, Proof, Recipient,
};

#[test]
fn test_parse_recipient() {
    assert_eq!(
        parse_recipient("test.near").unwrap(),
        Recipient {
            target: "test.near".to_string(),
            message: None,
        }
    );

    assert_eq!(
        parse_recipient("test.near:unwrap").unwrap(),
        Recipient {
            target: "test.near".to_string(),
            message: Some("unwrap".to_owned()),
        }
    );

    assert_eq!(
        parse_recipient("test.near:some_msg:with_extra_colon").unwrap(),
        Recipient {
            target: "test.near".to_string(),
            message: Some("some_msg:with_extra_colon".to_owned()),
        }
    );

    assert_eq!(
        parse_recipient("test.near:").unwrap(),
        Recipient {
            target: "test.near".to_string(),
            message: Some("".to_owned()),
        }
    );
}

#[test]
fn test_parse_invalid_recipient() {
    assert!(parse_recipient("test@.near").is_none());
    assert!(parse_recipient("test@.near:msg").is_none());
}

#[test]
fn parse_rejects_bad_account_shapes() {
    assert!(parse_recipient("").is_none());
    assert!(parse_recipient("a").is_none());
    assert!(parse_recipient(".near").is_none());
    assert!(parse_recipient("near.").is_none());
    assert!(parse_recipient("do..ble").is_none());
    assert!(parse_recipient("UPPER.near").is_none());
    assert!(parse_recipient(&"a".repeat(65)).is_none());
    assert!(parse_recipient(&"a".repeat(64)).is_some());
    assert!(parse_recipient("ok-account_0.near").is_some());
}

#[test]
fn eth_address_validation() {
    assert!(is_valid_eth_address(
        "68a3637ba6e75c0f66b61a42639c4e9fcd3d4824".to_string()
    ));
    // mixed case is accepted
    assert!(is_valid_eth_address(
        "68A3637Ba6e75c0f66b61a42639c4e9FCD3D4824".to_string()
    ));
    // 39 characters
    assert!(!is_valid_eth_address(
        "25Ac31A08EBA29067Ba4637788d1DbFB893cEBf".to_string()
    ));
    // not hexadecimal
    assert!(!is_valid_eth_address(
        "zz".repeat(20).to_string()
    ));
    assert!(!is_valid_eth_address("".to_string()));
}

#[test]
fn eth_address_bytes() {
    let addr = get_eth_address("00ff0102030405060708090a0b0c0d0e0f101180".to_string());
    assert_eq!(addr.len(), 20);
    assert_eq!(addr[0], 0x00);
    assert_eq!(addr[1], 0xff);
    assert_eq!(addr[19], 0x80);
}

fn proof_with(log_index: u64, receipt_index: u64, header: Vec<u8>, payload: Vec<u8>) -> Proof {
    Proof {
        log_index,
        log_entry_data: payload.clone(),
        receipt_index,
        receipt_data: payload.clone(),
        header_data: header,
        proof: vec![payload],
    }
}

#[test]
fn proof_key_ignores_payload_fields() {
    let a = proof_with(3, 7, vec![9, 9, 9], vec![1, 2, 3]);
    let b = proof_with(3, 7, vec![9, 9, 9], vec![4, 5, 6, 7]);
    assert_eq!(a.get_key(), b.get_key());
}

#[test]
fn proof_key_depends_on_position_and_header() {
    let a = proof_with(3, 7, vec![9, 9, 9], vec![]);
    let b = proof_with(4, 7, vec![9, 9, 9], vec![]);
    let c = proof_with(3, 8, vec![9, 9, 9], vec![]);
    let d = proof_with(3, 7, vec![9, 9, 8], vec![]);
    assert_ne!(a.get_key(), b.get_key());
    assert_ne!(a.get_key(), c.get_key());
    assert_ne!(a.get_key(), d.get_key());
}

#[test]
fn proof_key_is_a_digest() {
    let a = proof_with(0, 0, vec![], vec![]);
    let key = a.get_key();
    assert_eq!(key.len(), 32);
    // the digest of the sixteen zero bytes of the two index fields is not
    // those bytes themselves
    assert_ne!(key, vec![0u8; 32]);
}
