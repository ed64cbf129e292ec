//! End-to-end transfer scenarios: two sessions exchanging real frames
//! through in-memory queues, with every action interpreted by the test.

use quickshare_core::channel::TransferAction;
use quickshare_core::channel::TransferPayload;
use quickshare_core::error::TransferError;
use quickshare_core::session::progress_due;
use quickshare_core::session::Action;
use quickshare_core::session::InnerState;
use quickshare_core::state::TransferState;
use quickshare_core::wire::PayloadDesc;
use quickshare_core::wire::PayloadKind;

/// The receiver's view of its disk: one in-memory file per payload id.
struct Disk {
    files: Vec<(i64, Vec<u8>)>,
    synced: Vec<i64>,
}

impl Disk {
    fn new() -> Disk {
        Disk { files: Vec::new(), synced: Vec::new() }
    }

    fn write(&mut self, payload_id: i64, offset: u64, data: &[u8]) {
        for (id, bytes) in self.files.iter_mut() {
            if *id == payload_id {
                assert_eq!(bytes.len() as u64, offset, "chunks must append in order");
                bytes.extend_from_slice(data);
                return;
            }
        }
        assert_eq!(offset, 0, "a new file starts at offset zero");
        self.files.push((payload_id, data.to_vec()));
    }

    fn remove_partial(&mut self, session: &mut InnerState) {
        let names = session.close();
        // Map cleanup names back to payload ids through the session's
        // bookkeeping and delete those files.
        let mut doomed: Vec<i64> = Vec::new();
        for entry in session.transferred_files.iter() {
            for name in names.iter() {
                if &entry.name == name {
                    doomed.push(entry.payload_id);
                }
            }
        }
        self.files.retain(|(id, _)| !doomed.contains(id));
    }
}

struct Harness {
    sender: InnerState,
    receiver: InnerState,
    s2r: Vec<Vec<u8>>,
    r2s: Vec<Vec<u8>>,
    disk: Disk,
    consent: Option<TransferAction>,
    consent_sent: bool,
    progress: Vec<u64>,
    cancel_at: Option<u64>,
    cancel_sent: bool,
    flip_first_sealed: bool,
    tamper_client_finished: bool,
    flipped: bool,
    receiver_error: Option<TransferError>,
}

impl Harness {
    fn new(payloads: Vec<PayloadDesc>, contents: Vec<Vec<u8>>) -> Harness {
        let mut sender = InnerState::new(String::from("outbound-session"), None);
        let receiver = InnerState::new(String::from("inbound-session"), None);
        let actions = sender
            .start_outbound(&b"alice".to_vec(), &vec![65, 66, 67, 68], payloads, contents)
            .expect("outbound start succeeds");
        let mut h = Harness {
            sender,
            receiver,
            s2r: Vec::new(),
            r2s: Vec::new(),
            disk: Disk::new(),
            consent: Some(TransferAction::ConsentAccept),
            consent_sent: false,
            progress: Vec::new(),
            cancel_at: None,
            cancel_sent: false,
            flip_first_sealed: false,
            tamper_client_finished: false,
            flipped: false,
            receiver_error: None,
        };
        h.queue_sender_actions(actions);
        h
    }

    fn queue_sender_actions(&mut self, actions: Vec<Action>) {
        for a in actions {
            if let Action::SendFrame(f) = a {
                self.s2r.push(f);
            }
        }
    }

    fn queue_receiver_actions(&mut self, actions: Vec<Action>) {
        let consented = self.consent_sent
            && matches!(self.consent, Some(TransferAction::ConsentAccept));
        for a in actions {
            match a {
                Action::SendFrame(f) => self.r2s.push(f),
                Action::WriteFile { payload_id, offset, data, .. } => {
                    assert!(consented, "no file bytes may reach disk before consent");
                    self.disk.write(payload_id, offset, &data);
                }
                Action::SyncFile { payload_id } => self.disk.synced.push(payload_id),
                Action::Progress { ack_bytes, .. } => {
                    if let Some(last) = self.progress.last() {
                        assert!(*last <= ack_bytes, "progress must not decrease");
                    }
                    self.progress.push(ack_bytes);
                }
                Action::StateChanged(_) => {}
            }
        }
    }

    fn both_terminal(&self) -> bool {
        terminal(&self.sender.state) && terminal(&self.receiver.state)
    }

    fn run(&mut self) {
        for _ in 0..100000 {
            if self.both_terminal() {
                return;
            }
            let mut moved = false;
            if !self.s2r.is_empty() && !terminal(&self.receiver.state) {
                let mut frame = self.s2r.remove(0);
                if self.flip_first_sealed && !self.flipped && self.receiver.encryption_done {
                    frame[0] ^= 0x20;
                    self.flipped = true;
                }
                if self.tamper_client_finished && !self.flipped && frame.first() == Some(&4) {
                    let last = frame.len() - 1;
                    frame[last] ^= 0x01;
                    self.flipped = true;
                }
                match self.receiver.handle_frame(&frame) {
                    Ok(actions) => self.queue_receiver_actions(actions),
                    Err(e) => {
                        self.receiver_error = Some(e);
                    }
                }
                moved = true;
            }
            if matches!(self.receiver.state, TransferState::WaitingForUserConsent)
                && !self.consent_sent
            {
                if let Some(action) = self.consent {
                    let actions = self.receiver.handle_ui(action);
                    self.consent_sent = true;
                    self.queue_receiver_actions(actions);
                    moved = true;
                }
            }
            if let Some(limit) = self.cancel_at {
                if !self.cancel_sent
                    && self.progress.last().map_or(false, |&a| a >= limit)
                    && matches!(self.receiver.state, TransferState::ReceivingFiles)
                {
                    let actions = self.receiver.handle_ui(TransferAction::TransferCancel);
                    self.cancel_sent = true;
                    self.queue_receiver_actions(actions);
                    moved = true;
                }
            }
            if !self.r2s.is_empty() && !terminal(&self.sender.state) {
                let frame = self.r2s.remove(0);
                match self.sender.handle_frame(&frame) {
                    Ok(actions) => self.queue_sender_actions(actions),
                    Err(_) => {}
                }
                moved = true;
            }
            if matches!(self.sender.state, TransferState::SendingFiles) && self.s2r.is_empty() {
                let actions = self.sender.produce_chunk(65536).expect("sender can chunk");
                self.queue_sender_actions(actions);
                moved = true;
            }
            if !moved {
                return;
            }
        }
        panic!("scenario did not settle");
    }
}

fn terminal(s: &TransferState) -> bool {
    matches!(
        s,
        TransferState::Finished
            | TransferState::Cancelled
            | TransferState::Rejected
            | TransferState::Disconnected
    )
}

fn one_file(name: &[u8], contents: Vec<u8>) -> (Vec<PayloadDesc>, Vec<Vec<u8>>) {
    let desc = PayloadDesc {
        id: 42,
        kind: PayloadKind::File,
        name: name.to_vec(),
        size: contents.len() as u64,
    };
    (vec![desc], vec![contents])
}

#[test]
fn happy_path_file_transfer() {
    let (descs, contents) = one_file(b"hello.txt", b"Hello, world!".to_vec());
    let mut h = Harness::new(descs, contents);
    h.run();
    assert!(matches!(h.sender.state, TransferState::Finished));
    assert!(matches!(h.receiver.state, TransferState::Finished));
    assert_eq!(h.disk.files.len(), 1);
    assert_eq!(h.disk.files[0].1, b"Hello, world!".to_vec());
    assert!(h.disk.synced.contains(&42));
    let meta = h.receiver.transfer_metadata.as_ref().expect("receiver has metadata");
    assert_eq!(meta.ack_bytes, 13);
    assert_eq!(meta.total_bytes, 13);
    assert_eq!(h.progress.last(), Some(&13));
    // Both sides derived the same four-digit pin from the transcript.
    let sp = h.sender.pin_code.clone().expect("sender pin");
    let rp = h.receiver.pin_code.clone().expect("receiver pin");
    assert_eq!(sp, rp);
    assert_eq!(sp.len(), 4);
    assert!(sp.chars().all(|c| c.is_ascii_digit()));
}

#[test]
fn decline_leaves_no_bytes() {
    let (descs, contents) = one_file(b"hello.txt", b"Hello, world!".to_vec());
    let mut h = Harness::new(descs, contents);
    h.consent = Some(TransferAction::ConsentDecline);
    h.run();
    assert!(matches!(h.receiver.state, TransferState::Rejected));
    assert!(matches!(h.sender.state, TransferState::Rejected));
    assert_eq!(h.disk.files.len(), 0);
}

#[test]
fn mid_transfer_cancel_cleans_partial_file() {
    let contents: Vec<u8> = (0..10 * 1024 * 1024u32).map(|i| (i % 251) as u8).collect();
    let (descs, data) = one_file(b"big.bin", contents);
    let mut h = Harness::new(descs, data);
    h.cancel_at = Some(2 * 1024 * 1024);
    h.run();
    assert!(matches!(h.receiver.state, TransferState::Cancelled));
    assert!(matches!(h.sender.state, TransferState::Cancelled));
    assert_eq!(h.disk.files.len(), 1, "a partial file exists before cleanup");
    let mut receiver = std::mem::replace(&mut h.receiver, InnerState::new(String::new(), None));
    h.disk.remove_partial(&mut receiver);
    assert_eq!(h.disk.files.len(), 0, "the partial file is deleted at teardown");
    // Teardown also zeroized every key and handshake buffer.
    assert!(receiver.decrypt_key.as_ref().map_or(true, |k| k.is_empty()));
    assert!(receiver.encrypt_key.as_ref().map_or(true, |k| k.is_empty()));
    assert!(receiver.recv_hmac_key.as_ref().map_or(true, |k| k.is_empty()));
    assert!(receiver.send_hmac_key.as_ref().map_or(true, |k| k.is_empty()));
    assert!(receiver.client_init_msg_data.as_ref().map_or(true, |k| k.is_empty()));
    assert!(receiver.server_init_data.as_ref().map_or(true, |k| k.is_empty()));
    assert!(!receiver.encryption_done);
}

#[test]
fn url_payload_reaches_metadata() {
    let url = b"https://example.org".to_vec();
    let desc = PayloadDesc {
        id: 7,
        kind: PayloadKind::Url,
        name: b"link".to_vec(),
        size: url.len() as u64,
    };
    let mut h = Harness::new(vec![desc], vec![url]);
    h.run();
    assert!(matches!(h.receiver.state, TransferState::Finished));
    let meta = h.receiver.transfer_metadata.as_ref().expect("metadata");
    match meta.payload.as_ref().expect("payload") {
        TransferPayload::Url(u) => assert_eq!(u, "https://example.org"),
        _ => panic!("expected a url payload"),
    }
    assert_eq!(h.disk.files.len(), 0, "a url payload never touches the disk");
}

#[test]
fn flipped_record_disconnects_receiver() {
    let (descs, contents) = one_file(b"hello.txt", b"Hello, world!".to_vec());
    let mut h = Harness::new(descs, contents);
    h.flip_first_sealed = true;
    h.run();
    assert!(matches!(h.receiver.state, TransferState::Disconnected));
    assert_eq!(h.receiver_error, Some(TransferError::CryptoFailure));
    assert_eq!(h.disk.files.len(), 0);
}

#[test]
fn session_rejects_frames_after_termination() {
    let (descs, contents) = one_file(b"hello.txt", b"Hello, world!".to_vec());
    let mut h = Harness::new(descs, contents);
    h.run();
    assert!(matches!(h.receiver.state, TransferState::Finished));
    // Terminal states absorb: further frames change nothing.
    let r = h.receiver.handle_frame(&vec![12]);
    assert!(r.is_err());
    assert!(matches!(h.receiver.state, TransferState::Finished));
}

#[test]
fn progress_events_are_throttled() {
    assert!(progress_due(0, 100, 0));
    assert!(!progress_due(0, 99, 0));
    assert!(progress_due(1000, 1100, 0));
    assert!(!progress_due(1000, 1050, 1024));
    assert!(progress_due(1000, 1050, 1024 * 1024));
    assert!(progress_due(0, 0, 2 * 1024 * 1024));
}

#[test]
fn ui_commands_in_terminal_states_change_nothing() {
    let (descs, contents) = one_file(b"hello.txt", b"Hello, world!".to_vec());
    let mut h = Harness::new(descs, contents);
    h.run();
    assert!(matches!(h.receiver.state, TransferState::Finished));
    let actions = h.receiver.handle_ui(TransferAction::TransferCancel);
    assert!(actions.is_empty());
    assert!(matches!(h.receiver.state, TransferState::Finished));
}

#[test]
fn tampered_commitment_opening_is_fatal() {
    let (descs, contents) = one_file(b"hello.txt", b"Hello, world!".to_vec());
    let mut h = Harness::new(descs, contents);
    h.tamper_client_finished = true;
    h.run();
    assert!(matches!(h.receiver.state, TransferState::Disconnected));
    assert_eq!(h.receiver_error, Some(TransferError::ProtocolViolation));
    assert_eq!(h.disk.files.len(), 0);
}
