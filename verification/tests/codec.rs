//! Wire codec round trips and rejection of malformed envelopes.

use collab_core::awareness::{Awareness, CursorPair};
use collab_core::gossip_message::{
    decode_message, encode_for_broadcast, encode_message, GossipMessage, TAG_AWARENESS,
    TAG_REQUEST_DATA,
};

fn id(b: u8) -> [u8; 32] {
    [b; 32]
}

#[test]
fn round_trip_request_data() {
    let bytes = encode_message(7, &GossipMessage::RequestData);
    assert_eq!(bytes.len(), 17);
    match decode_message(&bytes) {
        Some(GossipMessage::RequestData) => {}
        _ => panic!("expected RequestData"),
    }
}

#[test]
fn round_trip_update() {
    let msg = GossipMessage::Update { data: vec![1, 2, 3, 255, 0] };
    let bytes = encode_message(u128::MAX, &msg);
    match decode_message(&bytes) {
        Some(GossipMessage::Update { data }) => assert_eq!(data, vec![1, 2, 3, 255, 0]),
        _ => panic!("expected Update"),
    }
}

#[test]
fn round_trip_update_empty_payload() {
    let msg = GossipMessage::Update { data: vec![] };
    let bytes = encode_message(0, &msg);
    match decode_message(&bytes) {
        Some(GossipMessage::Update { data }) => assert_eq!(data, Vec::<u8>::new()),
        _ => panic!("expected Update"),
    }
}

#[test]
fn round_trip_awareness_without_cursors() {
    let msg = GossipMessage::Awareness(Awareness {
        endpoint_id: id(4),
        name: String::from("Alice"),
        timestamp_ms: 123456789,
        cursors: None,
    });
    let bytes = encode_message(99, &msg);
    match decode_message(&bytes) {
        Some(GossipMessage::Awareness(a)) => {
            assert_eq!(a.endpoint_id, id(4));
            assert_eq!(a.name, "Alice");
            assert_eq!(a.timestamp_ms, 123456789);
            assert!(a.cursors.is_none());
        }
        _ => panic!("expected Awareness"),
    }
}

#[test]
fn round_trip_awareness_with_cursors_and_multibyte_name() {
    let msg = GossipMessage::Awareness(Awareness {
        endpoint_id: id(9),
        name: String::from("héllo wörld"),
        timestamp_ms: u64::MAX,
        cursors: Some(CursorPair { primary: vec![10, 20], secondary: vec![] }),
    });
    let bytes = encode_message(1, &msg);
    match decode_message(&bytes) {
        Some(GossipMessage::Awareness(a)) => {
            assert_eq!(a.endpoint_id, id(9));
            assert_eq!(a.name, "héllo wörld");
            assert_eq!(a.timestamp_ms, u64::MAX);
            let c = a.cursors.expect("cursors kept");
            assert_eq!(c.primary, vec![10, 20]);
            assert_eq!(c.secondary, Vec::<u8>::new());
        }
        _ => panic!("expected Awareness"),
    }
}

#[test]
fn broadcast_nonces_differ() {
    let msg = GossipMessage::RequestData;
    let a = encode_for_broadcast(&msg);
    let b = encode_for_broadcast(&msg);
    // identical payloads must not serialize identically, or the overlay's
    // deduplication would suppress them
    assert_ne!(a, b);
    assert!(matches!(decode_message(&a), Some(GossipMessage::RequestData)));
    assert!(matches!(decode_message(&b), Some(GossipMessage::RequestData)));
}

#[test]
fn rejects_short_input() {
    assert!(decode_message(&[]).is_none());
    assert!(decode_message(&[0u8; 16]).is_none());
}

#[test]
fn rejects_unknown_tag() {
    let mut bytes = vec![0u8; 16];
    bytes.push(9);
    assert!(decode_message(&bytes).is_none());
}

#[test]
fn rejects_trailing_bytes_after_request_data() {
    let mut bytes = vec![0u8; 16];
    bytes.push(TAG_REQUEST_DATA);
    bytes.push(0);
    assert!(decode_message(&bytes).is_none());
}

#[test]
fn rejects_truncated_awareness() {
    let mut bytes = vec![0u8; 16];
    bytes.push(TAG_AWARENESS);
    bytes.extend_from_slice(&[5u8; 20]);
    assert!(decode_message(&bytes).is_none());
}

#[test]
fn rejects_awareness_with_invalid_utf8_name() {
    let mut bytes = vec![0u8; 16];
    bytes.push(TAG_AWARENESS);
    bytes.extend_from_slice(&[5u8; 32]); // identity
    bytes.extend_from_slice(&42u64.to_le_bytes()); // timestamp
    bytes.extend_from_slice(&1u64.to_le_bytes()); // name length
    bytes.push(0xFF); // not valid UTF-8
    bytes.push(0); // no cursors
    assert!(decode_message(&bytes).is_none());
}

#[test]
fn rejects_awareness_with_oversized_name_length() {
    let mut bytes = vec![0u8; 16];
    bytes.push(TAG_AWARENESS);
    bytes.extend_from_slice(&[5u8; 32]);
    bytes.extend_from_slice(&42u64.to_le_bytes());
    bytes.extend_from_slice(&u64::MAX.to_le_bytes()); // absurd name length
    bytes.push(0);
    assert!(decode_message(&bytes).is_none());
}

#[test]
fn accepts_handwritten_awareness_encoding() {
    // the format is stable: flag byte then length-prefixed anchors
    let mut bytes = vec![7u8; 16]; // nonce, never inspected
    bytes.push(TAG_AWARENESS);
    bytes.extend_from_slice(&[3u8; 32]);
    bytes.extend_from_slice(&1000u64.to_le_bytes());
    bytes.extend_from_slice(&2u64.to_le_bytes());
    bytes.extend_from_slice(b"hi");
    bytes.push(1);
    bytes.extend_from_slice(&1u64.to_le_bytes());
    bytes.push(0xAB);
    bytes.extend_from_slice(&0u64.to_le_bytes());
    match decode_message(&bytes) {
        Some(GossipMessage::Awareness(a)) => {
            assert_eq!(a.name, "hi");
            assert_eq!(a.timestamp_ms, 1000);
            let c = a.cursors.expect("cursors");
            assert_eq!(c.primary, vec![0xAB]);
            assert!(c.secondary.is_empty());
        }
        _ => panic!("expected Awareness"),
    }
}
