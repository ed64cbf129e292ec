//! Record layer, key schedule, pin and discovery helper tests.

use quickshare_core::channel::ChannelMessage;
use quickshare_core::channel::Message;
use quickshare_core::channel::MessageClient;
use quickshare_core::channel::TextPayloadInfo;
use quickshare_core::channel::TransferAction;
use quickshare_core::channel::TransferKind;
use quickshare_core::channel::apply_channel_message;
use quickshare_core::channel::SecurityType;
use quickshare_core::channel::TransferMetadata;
use quickshare_core::channel::TransferPayload;
use quickshare_core::channel::TransferSnapshot;
use quickshare_core::discovery::encode_endpoint_info;
use quickshare_core::discovery::ip_is_usable;
use quickshare_core::discovery::is_virtual_interface;
use quickshare_core::error::TransferError;
use quickshare_core::record::open_record;
use quickshare_core::record::seal_record;
use quickshare_core::state::TransferState;
use quickshare_core::ukey2::derive_pin;
use quickshare_core::ukey2::derive_session_keys;
use quickshare_core::ukey2::verify_commitment;

fn test_keys() -> (Vec<u8>, Vec<u8>) {
    let transcript = b"transcript bytes".to_vec();
    let secret = b"shared secret material for tests".to_vec();
    let keys = derive_session_keys(&transcript, &secret);
    (keys.client_enc, keys.client_mac)
}

#[test]
fn record_round_trip_advances_both_counters() {
    let (ek, mk) = test_keys();
    let msg = b"hello record layer".to_vec();
    let mut send_seq: i32 = 0;
    let frame = seal_record(&ek, &mk, &mut send_seq, &msg);
    assert_eq!(send_seq, 1);
    let mut recv_seq: i32 = 0;
    let opened = open_record(&ek, &mk, &mut recv_seq, &frame).expect("a sealed record must open");
    assert_eq!(opened, msg);
    assert_eq!(recv_seq, 1);
}

#[test]
fn record_sequence_numbers_count_up_without_gaps() {
    let (ek, mk) = test_keys();
    let mut send_seq: i32 = 0;
    let mut frames = Vec::new();
    for i in 0..5u8 {
        frames.push(seal_record(&ek, &mk, &mut send_seq, &vec![i]));
    }
    assert_eq!(send_seq, 5);
    let mut recv_seq: i32 = 0;
    // A reordered frame is rejected and leaves the counter unchanged.
    assert_eq!(
        open_record(&ek, &mk, &mut recv_seq, &frames[1]),
        Err(TransferError::ProtocolViolation)
    );
    assert_eq!(recv_seq, 0);
    for (i, frame) in frames.iter().enumerate() {
        let opened = open_record(&ek, &mk, &mut recv_seq, frame).expect("in-order record opens");
        assert_eq!(opened, vec![i as u8]);
    }
    assert_eq!(recv_seq, 5);
    // A duplicate of the last frame is rejected: its number was used.
    assert_eq!(
        open_record(&ek, &mk, &mut recv_seq, &frames[4]),
        Err(TransferError::ProtocolViolation)
    );
    assert_eq!(recv_seq, 5);
}

#[test]
fn any_single_bit_flip_is_rejected() {
    let (ek, mk) = test_keys();
    let msg = b"authenticated".to_vec();
    let mut send_seq: i32 = 0;
    let frame = seal_record(&ek, &mk, &mut send_seq, &msg);
    for pos in 0..frame.len() {
        for bit in 0..8 {
            let mut tampered = frame.clone();
            tampered[pos] ^= 1 << bit;
            let mut recv_seq: i32 = 0;
            let r = open_record(&ek, &mk, &mut recv_seq, &tampered);
            assert_eq!(r, Err(TransferError::CryptoFailure));
            assert_eq!(recv_seq, 0);
        }
    }
}

#[test]
fn wrong_direction_keys_do_not_open() {
    let transcript = b"t".to_vec();
    let secret = b"s".to_vec();
    let keys = derive_session_keys(&transcript, &secret);
    let msg = b"payload".to_vec();
    let mut send_seq: i32 = 0;
    let frame = seal_record(&keys.client_enc, &keys.client_mac, &mut send_seq, &msg);
    let mut recv_seq: i32 = 0;
    assert_eq!(
        open_record(&keys.server_enc, &keys.server_mac, &mut recv_seq, &frame),
        Err(TransferError::CryptoFailure)
    );
}

#[test]
fn session_keys_are_pairwise_distinct() {
    let transcript = b"handshake transcript".to_vec();
    let secret = b"ecdh x coordinate".to_vec();
    let keys = derive_session_keys(&transcript, &secret);
    assert_eq!(keys.client_enc.len(), 32);
    assert_ne!(keys.client_enc, keys.client_mac);
    assert_ne!(keys.client_enc, keys.server_enc);
    assert_ne!(keys.client_enc, keys.server_mac);
    assert_ne!(keys.client_mac, keys.server_enc);
    assert_ne!(keys.client_mac, keys.server_mac);
    assert_ne!(keys.server_enc, keys.server_mac);
    // The key schedule is deterministic in its inputs.
    let again = derive_session_keys(&transcript, &secret);
    assert_eq!(keys.client_enc, again.client_enc);
    assert_eq!(keys.server_mac, again.server_mac);
}

#[test]
fn commitment_binds_exact_bytes() {
    let cf = b"client finished frame".to_vec();
    // The commitment is the SHA-256 of the exact frame bytes.
    let mut commitment = sha256_of_bytes(&cf);
    assert!(verify_commitment(&cf, &commitment));
    let mut other = cf.clone();
    other[0] ^= 1;
    assert!(!verify_commitment(&other, &commitment));
    commitment[31] ^= 1;
    assert!(!verify_commitment(&cf, &commitment));
}

fn sha256_of_bytes(data: &Vec<u8>) -> Vec<u8> {
    <sha2::Sha256 as sha2::Digest>::digest(data.as_slice()).to_vec()
}

#[test]
fn pin_is_deterministic_and_four_digits() {
    // SHA-256 of the empty transcript starts with e3 b0 c4 42;
    // 0xe3b0c442 = 3820012610, so the pin is 2610.
    let empty: Vec<u8> = Vec::new();
    assert_eq!(derive_pin(&empty), "2610");
    // SHA-256 of "abc" starts with ba 78 16 bf; 0xba7816bf = 3128432319.
    let abc = b"abc".to_vec();
    assert_eq!(derive_pin(&abc), "2319");
    let again = derive_pin(&abc);
    assert_eq!(again.len(), 4);
    assert!(again.chars().all(|c| c.is_ascii_digit()));
}

#[test]
fn virtual_interfaces_are_screened() {
    assert!(is_virtual_interface("docker0"));
    assert!(is_virtual_interface("DOCKER0"));
    assert!(is_virtual_interface("br-12af"));
    assert!(is_virtual_interface("veth99"));
    assert!(is_virtual_interface("virbr0"));
    assert!(is_virtual_interface("tailscale0"));
    assert!(is_virtual_interface("tun1"));
    assert!(is_virtual_interface("tap3"));
    assert!(!is_virtual_interface("eth0"));
    assert!(!is_virtual_interface("wlp3s0"));
    assert!(!is_virtual_interface("enp0s31f6"));
}

#[test]
fn unusable_addresses_are_screened() {
    assert!(ip_is_usable("eth0", 192, 168));
    assert!(ip_is_usable("wlan0", 10, 0));
    assert!(!ip_is_usable("lo", 127, 0));
    assert!(!ip_is_usable("docker0", 192, 168));
    assert!(!ip_is_usable("eth0", 169, 254));
    assert!(!ip_is_usable("eth0", 172, 16));
    assert!(!ip_is_usable("eth0", 172, 31));
    assert!(ip_is_usable("eth0", 172, 32));
    assert!(!ip_is_usable("eth0", 100, 64));
    assert!(!ip_is_usable("eth0", 100, 127));
    assert!(ip_is_usable("eth0", 100, 128));
}

#[test]
fn endpoint_info_blob_encodes_base64url() {
    // The blob for device type 3 and name "dev" is 03 64 65 76, which is
    // "A2Rldg" in unpadded url-safe base64.
    assert_eq!(encode_endpoint_info(3, &b"dev".to_vec()), "A2Rldg");
}

#[test]
fn as_client_splits_messages() {
    let event = Message::Client(MessageClient {
        kind: TransferKind::Inbound,
        state: Some(TransferState::Finished),
        metadata: None,
    });
    assert!(event.as_client().is_some());
    let command = Message::Lib { action: TransferAction::ConsentAccept };
    assert!(command.as_client().is_none());
}

#[test]
fn get_i64_value_reads_every_kind() {
    assert_eq!(TextPayloadInfo::Url(7).get_i64_value(), 7);
    assert_eq!(TextPayloadInfo::Text(-3).get_i64_value(), -3);
    assert_eq!(
        TextPayloadInfo::Wifi(21, String::from("net"), SecurityType::WpaPsk).get_i64_value(),
        21
    );
}

#[test]
fn snapshots_follow_events() {
    let mut transfers: Vec<TransferSnapshot> = Vec::new();
    let meta = TransferMetadata {
        source: None,
        payload: None,
        pin_code: Some(String::from("0114")),
        total_bytes: 13,
        ack_bytes: 0,
        destination_count: 1,
    };
    let msg = ChannelMessage {
        id: String::from("session-1"),
        msg: Message::Client(MessageClient {
            kind: TransferKind::Inbound,
            state: Some(TransferState::WaitingForUserConsent),
            metadata: Some(meta),
        }),
    };
    apply_channel_message(&mut transfers, &msg);
    assert_eq!(transfers.len(), 1);
    assert_eq!(transfers[0].id, "session-1");
    assert_eq!(transfers[0].total_bytes, 13);
    let update = ChannelMessage {
        id: String::from("session-1"),
        msg: Message::Client(MessageClient {
            kind: TransferKind::Inbound,
            state: Some(TransferState::Disconnected),
            metadata: None,
        }),
    };
    apply_channel_message(&mut transfers, &update);
    assert_eq!(transfers.len(), 0);
}

#[test]
fn url_event_gets_a_labelled_snapshot() {
    let mut transfers: Vec<TransferSnapshot> = Vec::new();
    let meta = TransferMetadata {
        source: None,
        payload: Some(TransferPayload::Url(String::from("https://example.org"))),
        pin_code: None,
        total_bytes: 19,
        ack_bytes: 19,
        destination_count: 1,
    };
    let msg = ChannelMessage {
        id: String::from("s4"),
        msg: Message::Client(MessageClient {
            kind: TransferKind::Inbound,
            state: Some(TransferState::Finished),
            metadata: Some(meta),
        }),
    };
    apply_channel_message(&mut transfers, &msg);
    assert_eq!(transfers.len(), 1);
    assert_eq!(transfers[0].device_name, "Unknown");
    assert_eq!(transfers[0].file_names, vec![String::from("URL: https://example.org")]);
}
