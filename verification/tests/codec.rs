use near_bridge::transfer_to_near_event::TransferToNearInitiatedEvent;
use near_bridge::BridgeError;

fn sample_event(amount: u128, recipient: &str) -> TransferToNearInitiatedEvent {
    TransferToNearInitiatedEvent {
        e_near_address: vec![0u8; 20],
        sender: "00005474e89094c44da98b954eedeac495271d0f".to_string(),
        amount,
        recipient: recipient.to_string(),
    }
}

#[test]
fn test_event_data() {
    let event_data = TransferToNearInitiatedEvent {
        e_near_address: vec![0u8; 20],
        sender: "00005474e89094c44da98b954eedeac495271d0f".to_string(),
        amount: 1000,
        recipient: "123".to_string(),
    };
    let data = event_data.to_log_entry_data();
    let result = TransferToNearInitiatedEvent::from_log_entry_data(&data).unwrap();
    assert_eq!(result, event_data);
}

#[test]
fn round_trip_with_message_recipient() {
    let event = sample_event(5_000_000_000_000_000_000_000_000, "alice.near:swap please");
    let back = TransferToNearInitiatedEvent::from_log_entry_data(&event.to_log_entry_data());
    assert_eq!(back.unwrap(), event);
}

#[test]
fn round_trip_empty_recipient() {
    let event = sample_event(0, "");
    let back = TransferToNearInitiatedEvent::from_log_entry_data(&event.to_log_entry_data());
    assert_eq!(back.unwrap(), event);
}

#[test]
fn round_trip_padding_edges() {
    // recipients whose byte lengths sit on either side of the 32-byte word
    for len in [31usize, 32, 33, 63, 64, 65] {
        let recipient: String = "a".repeat(len);
        let event = sample_event(u128::MAX, &recipient);
        let back = TransferToNearInitiatedEvent::from_log_entry_data(&event.to_log_entry_data());
        assert_eq!(back.unwrap(), event);
    }
}

#[test]
fn round_trip_non_ascii_recipient() {
    let event = sample_event(7, "alice.near:naïve µ-message ☃");
    let back = TransferToNearInitiatedEvent::from_log_entry_data(&event.to_log_entry_data());
    assert_eq!(back.unwrap(), event);
}

#[test]
fn decode_rejects_garbage() {
    assert_eq!(
        TransferToNearInitiatedEvent::from_log_entry_data(&vec![]).unwrap_err(),
        BridgeError::CodecError
    );
    assert_eq!(
        TransferToNearInitiatedEvent::from_log_entry_data(&vec![1, 2, 3]).unwrap_err(),
        BridgeError::CodecError
    );
    let mut truncated = sample_event(1, "bob.near").to_log_entry_data();
    truncated.pop();
    assert_eq!(
        TransferToNearInitiatedEvent::from_log_entry_data(&truncated).unwrap_err(),
        BridgeError::CodecError
    );
}

#[test]
fn decode_rejects_wrong_signature_topic() {
    let mut data = sample_event(1, "bob.near").to_log_entry_data();
    // for this event the outer header is two bytes, so the signature topic
    // starts 24 bytes into the payload: flip one byte of it
    let sig_start = 2 + 24;
    data[sig_start] ^= 0xff;
    assert_eq!(
        TransferToNearInitiatedEvent::from_log_entry_data(&data).unwrap_err(),
        BridgeError::CodecError
    );
}

#[test]
fn encoding_matches_ethabi_and_rlp() {
    let event = sample_event(1000, "alice.near:hello");
    let ours = event.to_log_entry_data();

    // the same log entry built with ethabi and rlp
    let params = [
        ethabi::ParamType::Address,
        ethabi::ParamType::Uint(256),
        ethabi::ParamType::String,
    ];
    let topic0 = ethabi::long_signature("TransferToNearInitiated", &params);
    let sender_bytes = hex::decode(&event.sender).unwrap();
    let mut topic1 = vec![0u8; 12];
    topic1.extend_from_slice(&sender_bytes);
    let data = ethabi::encode(&[
        ethabi::Token::Uint(ethabi::ethereum_types::U256::from(event.amount)),
        ethabi::Token::String(event.recipient.clone()),
    ]);
    let mut stream = rlp::RlpStream::new_list(3);
    stream.append(&event.e_near_address);
    let topics: Vec<Vec<u8>> = vec![topic0.as_bytes().to_vec(), topic1];
    stream.append_list::<Vec<u8>, _>(&topics);
    stream.append(&data);
    let theirs = stream.out().to_vec();

    assert_eq!(ours, theirs);
}

#[test]
fn decoding_accepts_ethabi_built_entry() {
    let event = sample_event(42, "bob.near");
    // built independently as in encoding_matches_ethabi_and_rlp
    let params = [
        ethabi::ParamType::Address,
        ethabi::ParamType::Uint(256),
        ethabi::ParamType::String,
    ];
    let topic0 = ethabi::long_signature("TransferToNearInitiated", &params);
    let sender_bytes = hex::decode(&event.sender).unwrap();
    let mut topic1 = vec![0u8; 12];
    topic1.extend_from_slice(&sender_bytes);
    let data = ethabi::encode(&[
        ethabi::Token::Uint(ethabi::ethereum_types::U256::from(event.amount)),
        ethabi::Token::String(event.recipient.clone()),
    ]);
    let mut stream = rlp::RlpStream::new_list(3);
    stream.append(&event.e_near_address);
    let topics: Vec<Vec<u8>> = vec![topic0.as_bytes().to_vec(), topic1];
    stream.append_list::<Vec<u8>, _>(&topics);
    stream.append(&data);
    let entry = stream.out().to_vec();

    let decoded = TransferToNearInitiatedEvent::from_log_entry_data(&entry).unwrap();
    assert_eq!(decoded, event);
}

#[test]
fn ethabi_parses_our_encoding() {
    let event = sample_event(999, "carol.near:msg");
    let encoded = event.to_log_entry_data();
    // strip the RLP framing by decoding with the rlp crate
    let decoded = rlp::Rlp::new(&encoded);
    let address: Vec<u8> = decoded.val_at(0).unwrap();
    let topics: Vec<Vec<u8>> = decoded.list_at(1).unwrap();
    let data: Vec<u8> = decoded.val_at(2).unwrap();
    assert_eq!(address, event.e_near_address);

    let abi_event = ethabi::Event {
        name: "TransferToNearInitiated".to_string(),
        inputs: vec![
            ethabi::EventParam {
                name: "sender".to_string(),
                kind: ethabi::ParamType::Address,
                indexed: true,
            },
            ethabi::EventParam {
                name: "amount".to_string(),
                kind: ethabi::ParamType::Uint(256),
                indexed: false,
            },
            ethabi::EventParam {
                name: "account_id".to_string(),
                kind: ethabi::ParamType::String,
                indexed: false,
            },
        ],
        anonymous: false,
    };
    let raw = ethabi::RawLog {
        topics: topics
            .iter()
            .map(|t| ethabi::ethereum_types::H256::from_slice(t))
            .collect(),
        data,
    };
    let log = abi_event.parse_log(raw).unwrap();
    let amount = log.params[1].value.clone().into_uint().unwrap();
    assert_eq!(amount, ethabi::ethereum_types::U256::from(999u64));
    let account = log.params[2].value.clone().into_string().unwrap();
    assert_eq!(account, "carol.near:msg");
}

#[test]
fn display_string_lists_the_fields() {
    let event = sample_event(1000, "123");
    assert_eq!(
        event.display_string(),
        "sender: 00005474e89094c44da98b954eedeac495271d0f; amount: 1000; recipient: 123"
    );
}
