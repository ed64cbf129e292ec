//! Framing and message codec tests.

use quickshare_core::error::TransferError;
use quickshare_core::frames::check_frame_len;
use quickshare_core::frames::encode_frame;
use quickshare_core::frames::parse_frame_len;
use quickshare_core::frames::MAX_HANDSHAKE_FRAME_LEN;
use quickshare_core::wire::decode_wire_msg;
use quickshare_core::wire::encode_wire_msg;
use quickshare_core::wire::PayloadDesc;
use quickshare_core::wire::PayloadKind;
use quickshare_core::wire::WireMsg;

#[test]
fn frame_prefix_is_big_endian() {
    let payload = vec![97u8, 98, 99];
    let framed = encode_frame(&payload);
    assert_eq!(framed, vec![0u8, 0, 0, 3, 97, 98, 99]);
    assert_eq!(parse_frame_len(framed[0], framed[1], framed[2], framed[3]), 3);
    assert_eq!(parse_frame_len(0x01, 0x02, 0x03, 0x04), 0x01020304);
}

#[test]
fn oversize_frame_is_rejected() {
    assert_eq!(check_frame_len(MAX_HANDSHAKE_FRAME_LEN, MAX_HANDSHAKE_FRAME_LEN), Ok(()));
    assert_eq!(
        check_frame_len(MAX_HANDSHAKE_FRAME_LEN + 1, MAX_HANDSHAKE_FRAME_LEN),
        Err(TransferError::ProtocolViolation)
    );
    assert_eq!(check_frame_len(6 * 1024 * 1024, 5 * 1024 * 1024), Err(TransferError::ProtocolViolation));
}

fn round_trip(m: WireMsg) -> WireMsg {
    let bytes = encode_wire_msg(&m);
    let back = decode_wire_msg(&bytes).expect("an encoded message must decode");
    assert_eq!(encode_wire_msg(&back), bytes);
    back
}

#[test]
fn connection_request_round_trips() {
    let m = WireMsg::ConnectionRequest {
        device_name: b"alice".to_vec(),
        device_type: 3,
        endpoint_id: vec![65, 66, 67, 68],
    };
    match round_trip(m) {
        WireMsg::ConnectionRequest { device_name, device_type, endpoint_id } => {
            assert_eq!(device_name, b"alice".to_vec());
            assert_eq!(device_type, 3);
            assert_eq!(endpoint_id, vec![65, 66, 67, 68]);
        }
        _ => panic!("wrong variant"),
    }
}

#[test]
fn chunk_round_trips_with_negative_id() {
    let m = WireMsg::PayloadChunk {
        payload_id: -77,
        offset: 1 << 40,
        is_last: true,
        data: vec![1, 2, 3, 4, 5],
    };
    match round_trip(m) {
        WireMsg::PayloadChunk { payload_id, offset, is_last, data } => {
            assert_eq!(payload_id, -77);
            assert_eq!(offset, 1 << 40);
            assert!(is_last);
            assert_eq!(data, vec![1, 2, 3, 4, 5]);
        }
        _ => panic!("wrong variant"),
    }
}

#[test]
fn introduction_round_trips() {
    let m = WireMsg::Introduction {
        payloads: vec![
            PayloadDesc { id: 9, kind: PayloadKind::File, name: b"hello.txt".to_vec(), size: 13 },
            PayloadDesc { id: -4, kind: PayloadKind::Url, name: b"link".to_vec(), size: 19 },
        ],
    };
    match round_trip(m) {
        WireMsg::Introduction { payloads } => {
            assert_eq!(payloads.len(), 2);
            assert_eq!(payloads[0].id, 9);
            assert_eq!(payloads[0].name, b"hello.txt".to_vec());
            assert_eq!(payloads[0].size, 13);
            assert_eq!(payloads[1].id, -4);
            assert!(matches!(payloads[1].kind, PayloadKind::Url));
        }
        _ => panic!("wrong variant"),
    }
}

#[test]
fn tag_only_messages_round_trip() {
    assert!(matches!(round_trip(WireMsg::PairedKeyEncryption), WireMsg::PairedKeyEncryption));
    assert!(matches!(round_trip(WireMsg::PairedKeyResult), WireMsg::PairedKeyResult));
    assert!(matches!(round_trip(WireMsg::Disconnection), WireMsg::Disconnection));
    assert!(matches!(
        round_trip(WireMsg::ConsentResponse { accepted: false }),
        WireMsg::ConsentResponse { accepted: false }
    ));
    assert!(matches!(
        round_trip(WireMsg::CancelTransfer { payload_id: 5 }),
        WireMsg::CancelTransfer { payload_id: 5 }
    ));
}

#[test]
fn malformed_messages_are_rejected() {
    assert!(decode_wire_msg(&vec![]).is_none());
    assert!(decode_wire_msg(&vec![0]).is_none());
    assert!(decode_wire_msg(&vec![13]).is_none());
    // A client init whose commitment is not 32 bytes.
    assert!(decode_wire_msg(&vec![2, 1, 2, 3]).is_none());
    // A boolean byte that is neither zero nor one.
    assert!(decode_wire_msg(&vec![5, 2]).is_none());
    // Trailing garbage after a valid message.
    let mut bytes = encode_wire_msg(&WireMsg::Disconnection);
    bytes.push(0);
    assert!(decode_wire_msg(&bytes).is_none());
    // A truncated chunk.
    let chunk = encode_wire_msg(&WireMsg::PayloadChunk {
        payload_id: 1,
        offset: 0,
        is_last: false,
        data: vec![9, 9, 9],
    });
    assert!(decode_wire_msg(&chunk[..chunk.len() - 1].to_vec()).is_none());
}
