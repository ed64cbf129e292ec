//! The session state machine and transfer engine.
//!
//! One `InnerState` exists per connection.  The owning driver feeds it
//! incoming frame payloads and user-interface commands; every call returns
//! the list of actions the driver must perform (frames to send, file
//! writes, progress events).  The session itself performs no I/O, so its
//! behaviour is verified for every event order: payload bytes are written
//! only after consent, progress never decreases, sequence counters never
//! decrease, terminal states are absorbing, and teardown zeroizes key
//! material and names every partially written file for deletion.

use vstd::prelude::*;

use crate::channel::RemoteDeviceInfo;
use crate::channel::SecurityType;
use crate::channel::TextPayloadInfo;
use crate::channel::TransferAction;
use crate::channel::TransferKind;
use crate::channel::TransferMetadata;
use crate::channel::TransferPayload;
use crate::crypto::p256_ecdh_x;
use crate::crypto::p256_generate_keypair;
use crate::crypto::sha256;
use crate::crypto::zeroize_bytes;
use crate::error::TransferError;
use crate::record::open_record;
use crate::record::opened_msg;
use crate::record::record_opens;
use crate::record::seal_record;
use crate::state::is_terminal;
use crate::state::step_allowed;
use crate::state::state_is_terminal;
use crate::state::TransferState;
use crate::text::utf8_lossy;
use crate::crypto::hkdf_sha256_key;
use crate::crypto::p256_ecdh_x_of;
use crate::crypto::sha256_of;
use crate::record::sealed_record;
use crate::ukey2::derive_pin;
use crate::ukey2::derive_session_keys;
use crate::ukey2::pin_chars;
use crate::ukey2::verify_commitment;
use crate::ukey2::INFO_CLIENT_ENC;
use crate::ukey2::INFO_CLIENT_MAC;
use crate::ukey2::INFO_SERVER_ENC;
use crate::ukey2::INFO_SERVER_MAC;
use crate::wire::decode_wire_msg;
use crate::wire::encode_wire_msg;
use crate::wire::len_prefixed;
use crate::wire::bool_byte;
use crate::wire::wire_msg_bytes;
use crate::wire::wire_tag;
use crate::wire::wire_msg_wf;
use crate::wire::PayloadDesc;
use crate::wire::PayloadKind;
use crate::wire::WireMsg;

verus! {

/// Progress bookkeeping for one declared payload.
pub struct FileEntry {
    pub payload_id: i64,
    pub kind: PayloadKind,
    pub name: Vec<u8>,
    pub total_size: u64,
    pub bytes_transferred: u64,
}

/// An in-memory assembly buffer for one small payload.
pub struct BufferEntry {
    pub payload_id: i64,
    pub data: Vec<u8>,
}

/// One effect the driver must perform after a session call.
pub enum Action {
    /// Write these bytes as one length-prefixed frame to the peer.
    SendFrame(Vec<u8>),
    /// Append `data` to the destination file of payload `payload_id` at
    /// byte position `offset`.
    WriteFile { payload_id: i64, name: Vec<u8>, offset: u64, data: Vec<u8> },
    /// Flush and sync the destination file of payload `payload_id`.
    SyncFile { payload_id: i64 },
    /// Report transfer progress to the user interface.
    Progress { ack_bytes: u64, total_bytes: u64 },
    /// Report that the session entered this state.
    StateChanged(TransferState),
}

/// The state of one transfer session.
pub struct InnerState {
    pub id: String,
    pub kind: TransferKind,
    pub server_seq: i32,
    pub client_seq: i32,
    pub encryption_done: bool,
    pub state: TransferState,
    pub remote_device_info: Option<RemoteDeviceInfo>,
    pub pin_code: Option<String>,
    pub transfer_metadata: Option<TransferMetadata>,
    pub transferred_files: Vec<FileEntry>,
    pub cipher_commitment: Option<Vec<u8>>,
    pub private_key: Option<Vec<u8>>,
    pub public_key: Option<Vec<u8>>,
    pub server_init_data: Option<Vec<u8>>,
    pub client_init_msg_data: Option<Vec<u8>>,
    pub ukey_client_finish_msg_data: Option<Vec<u8>>,
    pub decrypt_key: Option<Vec<u8>>,
    pub recv_hmac_key: Option<Vec<u8>>,
    pub encrypt_key: Option<Vec<u8>>,
    pub send_hmac_key: Option<Vec<u8>>,
    pub text_payload: Option<TextPayloadInfo>,
    pub payload_buffers: Vec<BufferEntry>,
    pub outbound_descs: Vec<PayloadDesc>,
    pub pending_payloads: u64,
}

/// A key option holds a usable 32-byte key.
pub open spec fn key_ok(k: Option<Vec<u8>>) -> bool {
    k matches Some(v) && v@.len() == 32
}

/// No two tracked payloads share an id.
pub open spec fn files_unique(files: Seq<FileEntry>) -> bool {
    forall|i: int, j: int|
        0 <= i < j < files.len() ==> (#[trigger] files[i]).payload_id != (
        #[trigger] files[j]).payload_id
}

/// Every tracked payload has received no more than its declared size.
pub open spec fn files_bounded(files: Seq<FileEntry>) -> bool {
    forall|i: int|
        0 <= i < files.len() ==> (#[trigger] files[i]).bytes_transferred <= files[i].total_size
}

/// Every tracked payload is complete.
pub open spec fn files_complete(files: Seq<FileEntry>) -> bool {
    forall|i: int|
        0 <= i < files.len() ==> (#[trigger] files[i]).bytes_transferred == files[i].total_size
}

/// The published cumulative progress of a session.
pub open spec fn ack_of(s: InnerState) -> int {
    match s.transfer_metadata {
        Some(m) => m.ack_bytes as int,
        None => 0,
    }
}

/// The published total size of a session.
pub open spec fn total_of(s: InnerState) -> int {
    match s.transfer_metadata {
        Some(m) => m.total_bytes as int,
        None => 0,
    }
}

impl InnerState {
    /// The session invariant: counters in range, armed directions hold
    /// full-size keys, payload bookkeeping consistent, and a finished
    /// session has every payload complete with progress equal to the
    /// total.
    pub open spec fn wf(self) -> bool {
        &&& 0 <= self.server_seq < 0x7fff0000
        &&& 0 <= self.client_seq < 0x7fff0000
        &&& self.encryption_done ==> key_ok(self.decrypt_key) && key_ok(self.recv_hmac_key)
            && key_ok(self.encrypt_key) && key_ok(self.send_hmac_key)
        &&& files_unique(self.transferred_files@)
        &&& files_bounded(self.transferred_files@)
        &&& (self.transfer_metadata matches Some(m) ==> m.ack_bytes <= m.total_bytes)
        &&& self.state == TransferState::Finished ==> files_complete(self.transferred_files@)
            && ack_of(self) == total_of(self)
        &&& ack_of(self) != 0 ==> self.state == TransferState::ReceivingFiles || self.state
            == TransferState::SendingFiles || is_terminal(self.state)
    }

    /// Creates a session about to serve one connection.
    pub fn new(id: String, transfer_metadata: Option<TransferMetadata>) -> (r: Self)
        requires
            transfer_metadata matches Some(m) ==> m.ack_bytes == 0,
        ensures
            r.wf(),
            r.state == TransferState::Initial,
            r.server_seq == 0,
            r.client_seq == 0,
            !r.encryption_done,
            r.id == id,
            r.transfer_metadata == transfer_metadata,
            r.kind == TransferKind::Inbound,
    {
        InnerState {
            id,
            kind: TransferKind::Inbound,
            server_seq: 0,
            client_seq: 0,
            encryption_done: false,
            state: TransferState::Initial,
            remote_device_info: None,
            pin_code: None,
            transfer_metadata,
            transferred_files: Vec::new(),
            cipher_commitment: None,
            private_key: None,
            public_key: None,
            server_init_data: None,
            client_init_msg_data: None,
            ukey_client_finish_msg_data: None,
            decrypt_key: None,
            recv_hmac_key: None,
            encrypt_key: None,
            send_hmac_key: None,
            text_payload: None,
            payload_buffers: Vec::new(),
            outbound_descs: Vec::new(),
            pending_payloads: 0,
        }
    }

    /// Handles one user-interface command.  Consent is decided here and
    /// nowhere else: `ConsentAccept` in `WaitingForUserConsent` is the
    /// only way any session ever enters `ReceivingFiles`.
    pub fn handle_ui(&mut self, action: TransferAction) -> (r: Vec<Action>)
        requires
            old(self).wf(),
        ensures
            final(self).wf(),
            is_terminal(old(self).state) ==> *final(self) == *old(self) && r@.len() == 0,
            forall|i: int| 0 <= i < r@.len() ==> !(#[trigger] r@[i] is WriteFile),
            final(self).state == TransferState::ReceivingFiles ==> old(self).state
                == TransferState::ReceivingFiles || (old(self).state
                == TransferState::WaitingForUserConsent && action
                == TransferAction::ConsentAccept),
            old(self).state == TransferState::WaitingForUserConsent && action
                == TransferAction::ConsentAccept ==> final(self).state
                == TransferState::ReceivingFiles,
            old(self).state == TransferState::WaitingForUserConsent && action
                == TransferAction::ConsentDecline ==> final(self).state
                == TransferState::Rejected,
            action == TransferAction::TransferCancel && !is_terminal(old(self).state)
                ==> final(self).state == TransferState::Cancelled,
            old(self).state == TransferState::WaitingForUserConsent && action
                == TransferAction::ConsentAccept ==> replies_with(
                r@,
                *old(self),
                WireMsg::ConsentResponse { accepted: true },
                TransferState::ReceivingFiles,
            ),
            old(self).state == TransferState::WaitingForUserConsent && action
                == TransferAction::ConsentDecline ==> replies_with(
                r@,
                *old(self),
                WireMsg::ConsentResponse { accepted: false },
                TransferState::Rejected,
            ),
            !is_terminal(old(self).state) && action == TransferAction::TransferCancel
                ==> replies_with(
                r@,
                *old(self),
                WireMsg::CancelTransfer { payload_id: 0 },
                TransferState::Cancelled,
            ),
            !is_terminal(old(self).state) && old(self).state
                != TransferState::WaitingForUserConsent && action
                != TransferAction::TransferCancel ==> *final(self) == *old(self) && r@.len()
                == 0,
            ack_of(*final(self)) == ack_of(*old(self)),
            final(self).server_seq >= old(self).server_seq,
            final(self).client_seq >= old(self).client_seq,
            final(self).transferred_files@ == old(self).transferred_files@,
    {
        let mut out: Vec<Action> = Vec::new();
        if state_is_terminal(&self.state) {
            return out;
        }
        match action {
            TransferAction::ConsentAccept => {
                if matches!(&self.state, TransferState::WaitingForUserConsent) {
                    self.state = TransferState::ReceivingFiles;
                    if let Some(frame) = self.seal_message(&WireMsg::ConsentResponse {
                        accepted: true,
                    }) {
                        out.push(Action::SendFrame(frame));
                    }
                    out.push(Action::StateChanged(TransferState::ReceivingFiles));
                }
            }
            TransferAction::ConsentDecline => {
                if matches!(&self.state, TransferState::WaitingForUserConsent) {
                    self.state = TransferState::Rejected;
                    if let Some(frame) = self.seal_message(&WireMsg::ConsentResponse {
                        accepted: false,
                    }) {
                        out.push(Action::SendFrame(frame));
                    }
                    out.push(Action::StateChanged(TransferState::Rejected));
                }
            }
            TransferAction::TransferCancel => {
                self.state = TransferState::Cancelled;
                if let Some(frame) = self.seal_message(&WireMsg::CancelTransfer {
                    payload_id: 0,
                }) {
                    out.push(Action::SendFrame(frame));
                }
                out.push(Action::StateChanged(TransferState::Cancelled));
            }
        }
        out
    }

    /// Seals one message for the peer when the record layer is armed and
    /// sequence numbers remain; the send counter advances by at most one
    /// and all other fields stay.
    fn seal_message(&mut self, msg: &WireMsg) -> (r: Option<Vec<u8>>)
        requires
            old(self).wf(),
            wire_msg_wf(*msg),
        ensures
            final(self).wf(),
            r is Some <==> old(self).encryption_done && old(self).server_seq < 0x7ffe0000,
            r is None ==> *final(self) == *old(self),
            r matches Some(f) ==> final(self).server_seq == old(self).server_seq + 1 && f@
                == crate::record::sealed_record(
                old(self).encrypt_key->Some_0@,
                old(self).send_hmac_key->Some_0@,
                old(self).server_seq + 1,
                wire_msg_bytes(*msg),
                f@.subrange(0, 16),
            ),
            old(self).server_seq <= final(self).server_seq <= old(self).server_seq + 1,
            final(self).client_seq == old(self).client_seq,
            final(self).state == old(self).state,
            final(self).transfer_metadata == old(self).transfer_metadata,
            final(self).transferred_files@ == old(self).transferred_files@,
            final(self).encryption_done == old(self).encryption_done,
            final(self).payload_buffers@ == old(self).payload_buffers@,
            final(self).pending_payloads == old(self).pending_payloads,
            final(self).outbound_descs@ == old(self).outbound_descs@,
            final(self).decrypt_key == old(self).decrypt_key,
            final(self).recv_hmac_key == old(self).recv_hmac_key,
            final(self).encrypt_key == old(self).encrypt_key,
            final(self).send_hmac_key == old(self).send_hmac_key,
            final(self).pin_code == old(self).pin_code,
    {
        if !self.encryption_done {
            return None;
        }
        if self.server_seq >= 0x7ffe0000 {
            return None;
        }
        let plain = encode_wire_msg(msg);
        proof {
            crate::wire::lemma_wire_msg_len(*msg);
        }
        let (ek, mk) = match (&self.encrypt_key, &self.send_hmac_key) {
            (Some(e), Some(m)) => (e, m),
            _ => {
                return None;
            }
        };
        let mut seqn = self.server_seq;
        let frame = seal_record(ek, mk, &mut seqn, &plain);
        self.server_seq = seqn;
        Some(frame)
    }

    /// Tears the session down: overwrites every symmetric key and every
    /// retained handshake message with zeros, disarms the record layer,
    /// and returns the names of the files that were partially written and
    /// must be deleted.  A finished session deletes nothing.
    pub fn close(&mut self) -> (cleanup: Vec<Vec<u8>>)
        ensures
            key_cleared(final(self).decrypt_key),
            key_cleared(final(self).recv_hmac_key),
            key_cleared(final(self).encrypt_key),
            key_cleared(final(self).send_hmac_key),
            key_cleared(final(self).server_init_data),
            key_cleared(final(self).client_init_msg_data),
            key_cleared(final(self).ukey_client_finish_msg_data),
            key_cleared(final(self).private_key),
            !final(self).encryption_done,
            final(self).state == old(self).state,
            old(self).state == TransferState::Finished ==> cleanup@.len() == 0,
            forall|i: int|
                0 <= i < cleanup@.len() ==> name_of_partial(
                    (#[trigger] cleanup@[i])@,
                    old(self).transferred_files@,
                ),
            old(self).state != TransferState::Finished ==> forall|j: int|
                0 <= j < old(self).transferred_files@.len() ==> is_partial(
                    #[trigger] old(self).transferred_files@[j],
                ) ==> name_listed(old(self).transferred_files@[j].name@, cleanup@),
    {
        clear_key(&mut self.decrypt_key);
        clear_key(&mut self.recv_hmac_key);
        clear_key(&mut self.encrypt_key);
        clear_key(&mut self.send_hmac_key);
        clear_key(&mut self.server_init_data);
        clear_key(&mut self.client_init_msg_data);
        clear_key(&mut self.ukey_client_finish_msg_data);
        clear_key(&mut self.private_key);
        self.encryption_done = false;
        let mut cleanup: Vec<Vec<u8>> = Vec::new();
        let finished = matches!(&self.state, TransferState::Finished);
        if !finished {
            let files = &self.transferred_files;
            let mut j: usize = 0;
            while j < files.len()
                invariant
                    j <= files@.len(),
                    files@ == old(self).transferred_files@,
                    forall|i: int|
                        0 <= i < cleanup@.len() ==> name_of_partial(
                            (#[trigger] cleanup@[i])@,
                            files@,
                        ),
                    forall|jj: int|
                        0 <= jj < j ==> is_partial(#[trigger] files@[jj]) ==> name_listed(
                            files@[jj].name@,
                            cleanup@,
                        ),
                decreases files@.len() - j,
            {
                let f = &files[j];
                if f.bytes_transferred > 0 && f.bytes_transferred < f.total_size {
                    let ghost prev = cleanup@;
                    let mut name_copy: Vec<u8> = Vec::new();
                    crate::wire::push_bytes(&mut name_copy, &f.name);
                    cleanup.push(name_copy);
                    proof {
                        assert(cleanup@[cleanup@.len() - 1]@ =~= files@[j as int].name@);
                        assert(is_partial(files@[j as int]));
                        assert(name_of_partial(files@[j as int].name@, files@));
                        assert forall|i: int| 0 <= i < cleanup@.len() implies name_of_partial(
                            (#[trigger] cleanup@[i])@,
                            files@,
                        ) by {
                            if i < prev.len() {
                                assert(cleanup@[i] == prev[i]);
                            } else {
                                assert(cleanup@[i]@ == files@[j as int].name@);
                            }
                        }
                        assert forall|jj: int|
                            0 <= jj < j + 1 && is_partial(#[trigger] files@[jj]) implies
                        name_listed(files@[jj].name@, cleanup@) by {
                            if jj < j as int {
                                let i0 = choose|i: int|
                                    0 <= i < prev.len() && (#[trigger] prev[i])@ == files@[jj].name@;
                                assert(cleanup@[i0]@ == files@[jj].name@);
                            } else {
                                assert(cleanup@[cleanup@.len() - 1]@ == files@[jj].name@);
                            }
                        }
                    }
                }
                j = j + 1;
            }
        }
        cleanup
    }
}

/// A file that received some bytes but not all of them.
pub open spec fn is_partial(f: FileEntry) -> bool {
    0 < f.bytes_transferred < f.total_size
}

/// Whether `n` is the name of some partially transferred file in `files`.
pub open spec fn name_of_partial(n: Seq<u8>, files: Seq<FileEntry>) -> bool {
    exists|j: int| 0 <= j < files.len() && is_partial(#[trigger] files[j]) && n == files[j].name@
}

/// Whether `n` occurs in the cleanup list.
pub open spec fn name_listed(n: Seq<u8>, cleanup: Seq<Vec<u8>>) -> bool {
    exists|i: int| 0 <= i < cleanup.len() && (#[trigger] cleanup[i])@ == n
}

/// An optional byte buffer that has been emptied.
pub open spec fn key_cleared(k: Option<Vec<u8>>) -> bool {
    k matches Some(v) ==> v@.len() == 0
}

/// Overwrites an optional key in place with zeros, then empties it.
fn clear_key(k: &mut Option<Vec<u8>>)
    ensures
        key_cleared(*final(k)),
        *final(k) is Some <==> *old(k) is Some,
{
    match k {
        Some(v) => {
            wipe_bytes(v);
            zeroize_bytes(v);
        }
        None => {}
    }
}

/// Overwrites every byte of `v` with zero, keeping its length.
pub fn wipe_bytes(v: &mut Vec<u8>)
    ensures
        final(v)@.len() == old(v)@.len(),
        forall|i: int| 0 <= i < final(v)@.len() ==> final(v)@[i] == 0,
{
    let mut i: usize = 0;
    while i < v.len()
        invariant
            i <= v@.len(),
            v@.len() == old(v)@.len(),
            forall|j: int| 0 <= j < i ==> v@[j] == 0,
        decreases v@.len() - i,
    {
        let slot = &mut v[i];
        *slot = 0;
        i = i + 1;
    }
}


/// The record-layer keys and pin that key agreement derives from the
/// handshake `transcript` and the shared secret `shared`: the initiator
/// sends under the client pair and receives under the server pair, the
/// responder the other way round, and the pin is the decimal digest of
/// the transcript hash.
pub open spec fn armed_from(
    s: InnerState,
    transcript: Seq<u8>,
    shared: Seq<u8>,
    initiator: bool,
) -> bool {
    let client_enc = hkdf_sha256_key(transcript, shared, seq![INFO_CLIENT_ENC]);
    let client_mac = hkdf_sha256_key(transcript, shared, seq![INFO_CLIENT_MAC]);
    let server_enc = hkdf_sha256_key(transcript, shared, seq![INFO_SERVER_ENC]);
    let server_mac = hkdf_sha256_key(transcript, shared, seq![INFO_SERVER_MAC]);
    &&& s.encryption_done
    &&& s.pin_code matches Some(p) && p@ == pin_chars(sha256_of(transcript))
    &&& s.encrypt_key matches Some(k) && k@ == (if initiator {
        client_enc
    } else {
        server_enc
    })
    &&& s.send_hmac_key matches Some(k) && k@ == (if initiator {
        client_mac
    } else {
        server_mac
    })
    &&& s.decrypt_key matches Some(k) && k@ == (if initiator {
        server_enc
    } else {
        client_enc
    })
    &&& s.recv_hmac_key matches Some(k) && k@ == (if initiator {
        server_mac
    } else {
        client_mac
    })
}

/// No two offered payloads share an id.
pub open spec fn descs_unique(s: Seq<PayloadDesc>) -> bool {
    forall|i: int, j: int|
        0 <= i < j < s.len() ==> (#[trigger] s[i]).id != (#[trigger] s[j]).id
}

/// The total number of bytes an offer declares.
pub open spec fn sizes_sum(s: Seq<PayloadDesc>) -> int
    decreases s.len(),
{
    if s.len() == 0 {
        0
    } else {
        s[0].size + sizes_sum(s.skip(1))
    }
}

/// Declared sizes are never negative, so neither is their sum.
pub proof fn lemma_sizes_sum_nonneg(s: Seq<PayloadDesc>)
    ensures
        sizes_sum(s) >= 0,
    decreases s.len(),
{
    if s.len() > 0 {
        lemma_sizes_sum_nonneg(s.skip(1));
    }
}

/// Extending a prefix by one description adds that description's size.
pub proof fn lemma_sizes_sum_snoc(s: Seq<PayloadDesc>, i: int)
    requires
        0 <= i < s.len(),
    ensures
        sizes_sum(s.take(i + 1)) == sizes_sum(s.take(i)) + s[i].size,
    decreases i,
{
    if i == 0 {
        assert(s.take(0) =~= Seq::<PayloadDesc>::empty());
        assert(s.take(1) =~= seq![s[0]]);
        assert(s.take(1).skip(1) =~= Seq::<PayloadDesc>::empty());
    } else {
        let t = s.skip(1);
        assert(s.take(i + 1) =~= seq![s[0]] + t.take(i));
        assert((seq![s[0]] + t.take(i)).skip(1) =~= t.take(i));
        assert(s.take(i) =~= seq![s[0]] + t.take(i - 1));
        assert((seq![s[0]] + t.take(i - 1)).skip(1) =~= t.take(i - 1));
        lemma_sizes_sum_snoc(t, i - 1);
        assert(t[i - 1] == s[i]);
    }
}

/// A prefix sum plus the next size never exceeds the whole sum.
pub proof fn lemma_sizes_sum_prefix(s: Seq<PayloadDesc>, i: int)
    requires
        0 <= i < s.len(),
    ensures
        sizes_sum(s.take(i)) + s[i].size <= sizes_sum(s),
    decreases i,
{
    if i == 0 {
        assert(s.take(0) =~= Seq::<PayloadDesc>::empty());
        lemma_sizes_sum_nonneg(s.skip(1));
    } else {
        let t = s.skip(1);
        assert(s.take(i) =~= seq![s[0]] + t.take(i - 1));
        assert((seq![s[0]] + t.take(i - 1)).skip(1) =~= t.take(i - 1));
        assert(sizes_sum(s.take(i)) == s[0].size + sizes_sum(t.take(i - 1)));
        lemma_sizes_sum_prefix(t, i - 1);
        assert(t[i - 1] == s[i]);
    }
}

/// An offer a sender may make: matching counts and sizes, unique ids,
/// names within the wire limit, and a total that fits the progress
/// counters.
pub open spec fn outbound_offer_ok(payloads: Seq<PayloadDesc>, contents: Seq<Vec<u8>>) -> bool {
    &&& payloads.len() == contents.len()
    &&& payloads.len() <= 0x100
    &&& forall|i: int|
        0 <= i < payloads.len() ==> (#[trigger] payloads[i]).name@.len() <= 0xFFFF
    &&& forall|i: int|
        0 <= i < payloads.len() ==> (#[trigger] payloads[i]).size == contents[i]@.len()
    &&& descs_unique(payloads)
    &&& sizes_sum(payloads) <= u64::MAX
}

/// Whether `bytes` is the encoding of the well-formed message `m`.
pub open spec fn frame_is(bytes: Seq<u8>, m: WireMsg) -> bool {
    wire_msg_wf(m) && bytes == wire_msg_bytes(m)
}

/// The actions a session step answers with when it must notify the peer
/// and the user interface: with the record layer armed and sequence
/// headroom, exactly one frame sealing `msg` at the next send sequence
/// number followed by the state event; otherwise the state event alone.
pub open spec fn replies_with(
    acts: Seq<Action>,
    pre: InnerState,
    msg: WireMsg,
    st: TransferState,
) -> bool {
    if pre.encryption_done && pre.server_seq < 0x7ffe0000 {
        &&& acts.len() == 2
        &&& acts[0] matches Action::SendFrame(f) && f@ == sealed_record(
            pre.encrypt_key->Some_0@,
            pre.send_hmac_key->Some_0@,
            pre.server_seq + 1,
            wire_msg_bytes(msg),
            f@.subrange(0, 16),
        )
        &&& acts[1] == Action::StateChanged(st)
    } else {
        acts =~= seq![Action::StateChanged(st)]
    }
}

/// One step of a session leaves the invariant intact, never decreases a
/// sequence counter or the published progress, never disarms the record
/// layer, and never moves into `ReceivingFiles` (only user consent does).
pub open spec fn evolves(pre: InnerState, post: InnerState) -> bool {
    &&& post.wf()
    &&& post.server_seq >= pre.server_seq
    &&& post.client_seq >= pre.client_seq
    &&& ack_of(post) >= ack_of(pre)
    &&& (pre.encryption_done ==> post.encryption_done)
    &&& (post.state == TransferState::ReceivingFiles ==> pre.state
        == TransferState::ReceivingFiles)
    &&& crate::state::reachable_in_three(pre.state, post.state)
}

/// No action writes payload bytes to disk unless the session was already
/// past its consent gate.
pub open spec fn actions_gated(acts: Seq<Action>, pre: InnerState) -> bool {
    forall|i: int|
        0 <= i < acts.len() ==> (#[trigger] acts[i] is WriteFile ==> pre.state
            == TransferState::ReceivingFiles)
}

/// Copies a byte vector.
fn copy_bytes(v: &Vec<u8>) -> (r: Vec<u8>)
    ensures
        r@ == v@,
{
    let r = crate::wire::read_bytes(v, 0, v.len());
    proof {
        assert(r@ =~= v@);
    }
    r
}

/// Finds the tracked payload with this id.
fn find_file_index(files: &Vec<FileEntry>, id: i64) -> (r: Option<usize>)
    ensures
        r matches Some(i) ==> i < files@.len() && files@[i as int].payload_id == id,
        r is None ==> forall|i: int|
            0 <= i < files@.len() ==> (#[trigger] files@[i]).payload_id != id,
{
    let mut i: usize = 0;
    while i < files.len()
        invariant
            i <= files@.len(),
            forall|j: int| 0 <= j < i ==> (#[trigger] files@[j]).payload_id != id,
        decreases files@.len() - i,
    {
        if files[i].payload_id == id {
            return Some(i);
        }
        i = i + 1;
    }
    None
}

/// Finds the assembly buffer with this id.
fn find_buffer_index(buffers: &Vec<BufferEntry>, id: i64) -> (r: Option<usize>)
    ensures
        r matches Some(i) ==> i < buffers@.len() && buffers@[i as int].payload_id == id,
{
    let mut i: usize = 0;
    while i < buffers.len()
        invariant
            i <= buffers@.len(),
        decreases buffers@.len() - i,
    {
        if buffers[i].payload_id == id {
            return Some(i);
        }
        i = i + 1;
    }
    None
}

impl InnerState {
    /// Marks the session failed and reports the error.
    fn fail(&mut self, e: TransferError) -> (r: Result<Vec<Action>, TransferError>)
        requires
            old(self).wf(),
            !is_terminal(old(self).state),
        ensures
            final(self).wf(),
            evolves(*old(self), *final(self)),
            final(self).state == TransferState::Disconnected,
            final(self).client_seq == old(self).client_seq,
            final(self).server_seq == old(self).server_seq,
            r == Result::<Vec<Action>, TransferError>::Err(e),
    {
        self.state = TransferState::Disconnected;
        Err(e)
    }

    /// Starts an outbound session: queues the payloads to offer, prepares
    /// the key-agreement commitment, and returns the `ConnectionRequest`
    /// and `UkeyClientInit` frames to send.
    pub fn start_outbound(
        &mut self,
        device_name: &Vec<u8>,
        endpoint_id: &Vec<u8>,
        payloads: Vec<PayloadDesc>,
        contents: Vec<Vec<u8>>,
    ) -> (r: Result<Vec<Action>, TransferError>)
        requires
            old(self).wf(),
            old(self).state == TransferState::Initial,
            device_name@.len() <= 0xFFFF,
            endpoint_id@.len() == 4,
        ensures
            evolves(*old(self), *final(self)),
            r matches Ok(acts) ==> actions_gated(acts@, *old(self)) && final(self).state
                == TransferState::SentUkeyClientInit && final(self).kind
                == TransferKind::Outbound,
            r is Err ==> final(self).state == TransferState::Disconnected,
            outbound_offer_ok(payloads@, contents@) ==> (r matches Ok(acts) && acts@.len() == 2
                && (acts@[0] matches Action::SendFrame(cr) && cr@ == seq![1u8] + len_prefixed(
                device_name@,
            ) + seq![3u8] + endpoint_id@) && (acts@[1] matches Action::SendFrame(ci) && ci@
                == seq![2u8] + sha256_of(final(self).ukey_client_finish_msg_data->Some_0@)) && (
            final(self).ukey_client_finish_msg_data matches Some(cf) && cf@ == seq![4u8]
                + crate::crypto::p256_pubkey_of(final(self).private_key->Some_0@))
                && final(self).private_key is Some
                && total_of(*final(self)) == sizes_sum(payloads@)
                && ack_of(*final(self)) == 0),
    {
        if payloads.len() != contents.len() || payloads.len() > 0x100 {
            return self.fail(TransferError::ProtocolViolation);
        }
        let mut total: u64 = 0;
        let mut files: Vec<FileEntry> = Vec::new();
        let mut buffers: Vec<BufferEntry> = Vec::new();
        let mut i: usize = 0;
        while i < payloads.len()
            invariant
                i <= payloads@.len(),
                payloads@.len() == contents@.len(),
                *self == *old(self),
                old(self).wf(),
                old(self).state == TransferState::Initial,
                files@.len() == i,
                forall|j: int|
                    0 <= j < i ==> (#[trigger] files@[j]).payload_id == payloads@[j].id
                        && files@[j].bytes_transferred == 0,
                files_unique(files@),
                files_bounded(files@),
                total == sizes_sum(payloads@.take(i as int)),
            decreases payloads@.len() - i,
        {
            let d = &payloads[i];
            if d.name.len() > 0xFFFF {
                proof {
                    assert(payloads@[i as int].name@.len() > 0xFFFF);
                }
                return self.fail(TransferError::ProtocolViolation);
            }
            if d.size != contents[i].len() as u64 {
                proof {
                    assert(payloads@[i as int].size != contents@[i as int]@.len());
                }
                return self.fail(TransferError::ProtocolViolation);
            }
            if total > u64::MAX - d.size {
                proof {
                    lemma_sizes_sum_prefix(payloads@, i as int);
                }
                return self.fail(TransferError::ProtocolViolation);
            }
            match find_file_index(&files, d.id) {
                Some(fi) => {
                    proof {
                        assert(files@[fi as int].payload_id == payloads@[fi as int].id);
                        assert(payloads@[fi as int].id == payloads@[i as int].id);
                        assert(!descs_unique(payloads@));
                    }
                    return self.fail(TransferError::ProtocolViolation);
                }
                None => {}
            }
            proof {
                lemma_sizes_sum_snoc(payloads@, i as int);
            }
            total = total + d.size;
            files.push(
                FileEntry {
                    payload_id: d.id,
                    kind: d.kind,
                    name: copy_bytes(&d.name),
                    total_size: d.size,
                    bytes_transferred: 0,
                },
            );
            buffers.push(BufferEntry { payload_id: d.id, data: copy_bytes(&contents[i]) });
            i = i + 1;
        }
        let count = payloads.len();
        let (private_key, public_key) = p256_generate_keypair();
        let cf_msg = WireMsg::UkeyClientFinished { public_key: copy_bytes(&public_key) };
        let cf_bytes = encode_wire_msg(&cf_msg);
        let commitment = sha256(&cf_bytes);
        let ci_msg = WireMsg::UkeyClientInit { commitment };
        let ci_bytes = encode_wire_msg(&ci_msg);
        let cr_msg = WireMsg::ConnectionRequest {
            device_name: copy_bytes(device_name),
            device_type: 3,
            endpoint_id: copy_bytes(endpoint_id),
        };
        let cr_bytes = encode_wire_msg(&cr_msg);
        self.kind = TransferKind::Outbound;
        self.transferred_files = files;
        self.payload_buffers = buffers;
        self.outbound_descs = payloads;
        self.pending_payloads = count as u64;
        self.private_key = Some(private_key);
        self.public_key = Some(public_key);
        self.ukey_client_finish_msg_data = Some(copy_bytes(&cf_bytes));
        self.client_init_msg_data = Some(copy_bytes(&ci_bytes));
        self.transfer_metadata = Some(
            TransferMetadata {
                source: None,
                payload: None,
                pin_code: None,
                total_bytes: total,
                ack_bytes: 0,
                destination_count: count as u64,
            },
        );
        self.state = TransferState::SentUkeyClientInit;
        let mut out: Vec<Action> = Vec::new();
        out.push(Action::SendFrame(cr_bytes));
        out.push(Action::SendFrame(ci_bytes));
        proof {
            assert(payloads@.take(payloads@.len() as int) =~= payloads@);
            assert(cr_bytes@ =~= seq![1u8] + len_prefixed(device_name@) + seq![3u8]
                + endpoint_id@);
            assert(ci_bytes@ =~= seq![2u8] + sha256_of(cf_bytes@));
            assert(cf_bytes@ =~= seq![4u8] + crate::crypto::p256_pubkey_of(private_key@));
        }
        Ok(out)
    }

    /// Handles one incoming frame payload: opens the record layer when it
    /// is armed, parses the message, and drives the state machine.  Fatal
    /// conditions disconnect the session; a frame in a terminal state
    /// changes nothing.
    #[verifier::rlimit(100)]
    #[verifier::spinoff_prover]
    pub fn handle_frame(&mut self, frame: &Vec<u8>) -> (r: Result<Vec<Action>, TransferError>)
        requires
            old(self).wf(),
        ensures
            evolves(*old(self), *final(self)),
            is_terminal(old(self).state) ==> *final(self) == *old(self) && r is Err,
            !is_terminal(old(self).state) && r is Err ==> final(self).state
                == TransferState::Disconnected,
            r matches Ok(acts) ==> actions_gated(acts@, *old(self)),
            old(self).encryption_done && !is_terminal(old(self).state) ==> (r is Ok
                ==> record_opens(
                old(self).decrypt_key->Some_0@,
                old(self).recv_hmac_key->Some_0@,
                old(self).client_seq as int,
                frame@,
            ) && final(self).client_seq == old(self).client_seq + 1),
            old(self).encryption_done && !is_terminal(old(self).state) && !record_opens(
                old(self).decrypt_key->Some_0@,
                old(self).recv_hmac_key->Some_0@,
                old(self).client_seq as int,
                frame@,
            ) ==> r is Err,
            forall|m: WireMsg|
                !old(self).encryption_done && old(self).kind == TransferKind::Inbound && old(
                    self,
                ).state == TransferState::Initial && frame_is(frame@, m) && m
                    is ConnectionRequest ==> r is Ok && final(self).state
                    == TransferState::ReceivedConnectionRequest,
            forall|m: WireMsg|
                !old(self).encryption_done && old(self).kind == TransferKind::Inbound && old(
                    self,
                ).state == TransferState::ReceivedConnectionRequest && frame_is(frame@, m) && m
                    is UkeyClientInit ==> (r matches Ok(acts) && final(self).state
                    == TransferState::SentUkeyServerInit && acts@.len() == 1 && (acts@[0]
                    matches Action::SendFrame(f) && f@ == seq![3u8]
                    + crate::crypto::p256_pubkey_of(final(self).private_key->Some_0@)) && (final(self).server_init_data matches Some(si) && si@ == seq![3u8]
                    + crate::crypto::p256_pubkey_of(final(self).private_key->Some_0@)) && (final(self).client_init_msg_data matches Some(ci) && ci@ == frame@) && (final(self).cipher_commitment matches Some(c) && c@ == frame@.subrange(1, 33)) && final(self).private_key is Some),
            forall|m: WireMsg|
                !old(self).encryption_done && old(self).kind == TransferKind::Inbound && old(
                    self,
                ).state == TransferState::SentUkeyServerInit && frame_is(frame@, m) && m
                    is UkeyClientFinished && (old(self).cipher_commitment matches Some(c)
                    && sha256_of(frame@) != c@) ==> r == Result::<
                    Vec<Action>,
                    TransferError,
                >::Err(TransferError::ProtocolViolation) && final(self).state
                    == TransferState::Disconnected,
            forall|m: WireMsg|
                !old(self).encryption_done && old(self).kind == TransferKind::Inbound && old(
                    self,
                ).state == TransferState::SentUkeyServerInit && frame_is(frame@, m) && m
                    is UkeyClientFinished && (old(self).cipher_commitment matches Some(c)
                    && sha256_of(frame@) == c@) && old(self).private_key is Some && old(
                    self,
                ).client_init_msg_data is Some && old(self).server_init_data is Some
                    && p256_ecdh_x_of(old(self).private_key->Some_0@, frame@.subrange(1, 66))
                    is Some && old(self).server_seq < 0x7ffdffff ==> (r matches Ok(acts)
                    && final(self).state == TransferState::SentPairedKeyEncryption
                    && final(self).encryption_done && armed_from(
                    *final(self),
                    old(self).client_init_msg_data->Some_0@ + old(self).server_init_data->Some_0@,
                    p256_ecdh_x_of(old(self).private_key->Some_0@, frame@.subrange(1, 66))->Some_0,
                    false,
                ) && acts@.len() == 2 && acts@[0] is SendFrame && acts@[1] is SendFrame
                    && final(self).server_seq == old(self).server_seq + 2),
            forall|m: WireMsg|
                !old(self).encryption_done && old(self).kind == TransferKind::Outbound && old(
                    self,
                ).state == TransferState::SentUkeyClientInit && frame_is(frame@, m) && m
                    is UkeyServerInit && old(self).ukey_client_finish_msg_data is Some && old(
                    self,
                ).private_key is Some && old(self).client_init_msg_data is Some
                    && p256_ecdh_x_of(old(self).private_key->Some_0@, frame@.subrange(1, 66))
                    is Some ==> (r matches Ok(acts) && final(self).state
                    == TransferState::SentUkeyClientFinish && final(self).encryption_done
                    && armed_from(
                    *final(self),
                    old(self).client_init_msg_data->Some_0@ + frame@,
                    p256_ecdh_x_of(old(self).private_key->Some_0@, frame@.subrange(1, 66))->Some_0,
                    true,
                ) && acts@.len() == 1 && (acts@[0] matches Action::SendFrame(f) && f@ == old(
                    self,
                ).ukey_client_finish_msg_data->Some_0@)),
            forall|m: WireMsg|
                old(self).encryption_done && !is_terminal(old(self).state) && old(self).client_seq
                    < 0x7ffeffff && record_opens(
                    old(self).decrypt_key->Some_0@,
                    old(self).recv_hmac_key->Some_0@,
                    old(self).client_seq as int,
                    frame@,
                ) && opened_msg(old(self).decrypt_key->Some_0@, frame@) == wire_msg_bytes(m)
                    && wire_msg_wf(m) ==> ((m is Disconnection ==> r is Ok && final(self).state
                    == TransferState::Disconnected) && (m is CancelTransfer ==> r is Ok && final(self).state == TransferState::Cancelled) && (m is ConsentResponse && old(self).kind
                    == TransferKind::Outbound && old(self).state == TransferState::SentIntroduction
                    ==> r is Ok && final(self).state == (if m->ConsentResponse_accepted {
                    TransferState::SendingFiles
                } else {
                    TransferState::Rejected
                }))),
    {
        if state_is_terminal(&self.state) {
            return Err(TransferError::ProtocolViolation);
        }
        let payload: Vec<u8> = match self.open_incoming(frame) {
            Ok(p) => p,
            Err(e) => {
                return Err(e);
            }
        };
        let msg = match decode_wire_msg(&payload) {
            Some(m) => m,
            None => {
                return self.fail(TransferError::ProtocolViolation);
            }
        };
        let ghost gmsg = msg;
        proof {
            assert forall|x: WireMsg| (#[trigger] wire_msg_bytes(x)).len() >= 1
                && wire_msg_bytes(x)[0] == wire_tag(x) by {
                assert(wire_msg_bytes(x)[0] == wire_tag(x));
            }
            assert forall|m: WireMsg|
                wire_msg_wf(m) && payload@ == wire_msg_bytes(m) && m is ConsentResponse implies
            gmsg is ConsentResponse && m->ConsentResponse_accepted
                == gmsg->ConsentResponse_accepted by {
                assert(wire_msg_bytes(m)[0] == wire_tag(m));
                assert(wire_msg_bytes(gmsg)[0] == wire_tag(gmsg));
                assert(wire_msg_bytes(m)[1] == bool_byte(m->ConsentResponse_accepted));
                assert(wire_msg_bytes(gmsg)[1] == bool_byte(gmsg->ConsentResponse_accepted));
            }
        }
        self.dispatch_message(msg, &payload)
    }

    /// Recovers the application bytes of one incoming frame: the frame
    /// itself before key agreement, the opened record afterwards.  With
    /// the record layer armed, success is exactly `record_opens` with
    /// sequence headroom, and only the receive counter changes.
    fn open_incoming(&mut self, frame: &Vec<u8>) -> (r: Result<Vec<u8>, TransferError>)
        requires
            old(self).wf(),
            !is_terminal(old(self).state),
        ensures
            final(self).wf(),
            evolves(*old(self), *final(self)),
            r is Err ==> final(self).state == TransferState::Disconnected,
            !old(self).encryption_done ==> (r matches Ok(p) && p@ == frame@ && *final(self)
                == *old(self)),
            old(self).encryption_done ==> (r is Ok <==> record_opens(
                old(self).decrypt_key->Some_0@,
                old(self).recv_hmac_key->Some_0@,
                old(self).client_seq as int,
                frame@,
            ) && old(self).client_seq + 1 < 0x7fff0000),
            old(self).encryption_done && r is Ok ==> r->Ok_0@ == opened_msg(
                old(self).decrypt_key->Some_0@,
                frame@,
            ) && final(self).client_seq == old(self).client_seq + 1 && *final(self) == (InnerState {
                client_seq: final(self).client_seq,
                ..*old(self)
            }),
    {
        if !self.encryption_done {
            return Ok(copy_bytes(frame));
        }
        let mut seqv = self.client_seq;
        let opened = match (&self.decrypt_key, &self.recv_hmac_key) {
            (Some(dk), Some(rk)) => open_record(dk, rk, &mut seqv, frame),
            _ => Err(TransferError::CryptoFailure),
        };
        match opened {
            Ok(p) => {
                if seqv >= 0x7fff0000 {
                    let _ = self.fail(TransferError::ProtocolViolation);
                    return Err(TransferError::ProtocolViolation);
                }
                self.client_seq = seqv;
                Ok(p)
            }
            Err(e) => {
                let _ = self.fail(e);
                Err(e)
            }
        }
    }

    /// Drives the state machine with one parsed message.  Each protocol
    /// step that the current role and state admit is owed its successor
    /// state and reply frames; everything else is a protocol violation.
    #[verifier::rlimit(100)]
    #[verifier::spinoff_prover]
    fn dispatch_message(&mut self, msg: WireMsg, payload: &Vec<u8>) -> (r: Result<
        Vec<Action>,
        TransferError,
    >)
        requires
            old(self).wf(),
            !is_terminal(old(self).state),
            wire_msg_wf(msg),
            payload@ == wire_msg_bytes(msg),
        ensures
            evolves(*old(self), *final(self)),
            r matches Ok(acts) ==> actions_gated(acts@, *old(self)),
            r is Err ==> final(self).state == TransferState::Disconnected,
            final(self).client_seq == old(self).client_seq,
            msg is Disconnection ==> r is Ok && final(self).state
                == TransferState::Disconnected,
            msg is CancelTransfer ==> r is Ok && final(self).state == TransferState::Cancelled,
            msg is ConnectionRequest && old(self).kind == TransferKind::Inbound && old(
                self,
            ).state == TransferState::Initial ==> r is Ok && final(self).state
                == TransferState::ReceivedConnectionRequest,
            msg is UkeyClientInit && old(self).kind == TransferKind::Inbound && old(self).state
                == TransferState::ReceivedConnectionRequest ==> (r matches Ok(acts) && final(self).state == TransferState::SentUkeyServerInit && acts@.len() == 1 && (acts@[0]
                matches Action::SendFrame(f) && f@ == seq![3u8] + crate::crypto::p256_pubkey_of(
                final(self).private_key->Some_0@,
            )) && (final(self).server_init_data matches Some(si) && si@ == seq![3u8]
                + crate::crypto::p256_pubkey_of(final(self).private_key->Some_0@)) && (final(self).client_init_msg_data matches Some(ci) && ci@ == payload@) && (final(self).cipher_commitment matches Some(c) && c@ == payload@.subrange(1, 33)) && final(self).private_key is Some),
            msg is UkeyClientFinished && old(self).kind == TransferKind::Inbound && old(
                self,
            ).state == TransferState::SentUkeyServerInit && (old(self).cipher_commitment
                matches Some(c) && sha256_of(payload@) != c@) ==> r == Result::<
                Vec<Action>,
                TransferError,
            >::Err(TransferError::ProtocolViolation) && final(self).state
                == TransferState::Disconnected,
            msg is UkeyClientFinished && old(self).kind == TransferKind::Inbound && old(
                self,
            ).state == TransferState::SentUkeyServerInit && (old(self).cipher_commitment
                matches Some(c) && sha256_of(payload@) == c@) && old(self).private_key is Some
                && old(self).client_init_msg_data is Some && old(self).server_init_data is Some
                && p256_ecdh_x_of(old(self).private_key->Some_0@, payload@.subrange(1, 66))
                is Some && old(self).server_seq < 0x7ffdffff ==> (r matches Ok(acts) && final(self).state == TransferState::SentPairedKeyEncryption && final(self).encryption_done
                && armed_from(
                *final(self),
                old(self).client_init_msg_data->Some_0@ + old(self).server_init_data->Some_0@,
                p256_ecdh_x_of(old(self).private_key->Some_0@, payload@.subrange(1, 66))->Some_0,
                false,
            ) && acts@.len() == 2 && acts@[0] is SendFrame && acts@[1] is SendFrame && final(self).server_seq == old(self).server_seq + 2),
            msg is UkeyServerInit && old(self).kind == TransferKind::Outbound && old(self).state
                == TransferState::SentUkeyClientInit && old(self).ukey_client_finish_msg_data
                is Some && old(self).private_key is Some && old(self).client_init_msg_data is Some
                && p256_ecdh_x_of(old(self).private_key->Some_0@, payload@.subrange(1, 66))
                is Some ==> (r matches Ok(acts) && final(self).state
                == TransferState::SentUkeyClientFinish && final(self).encryption_done
                && armed_from(
                *final(self),
                old(self).client_init_msg_data->Some_0@ + payload@,
                p256_ecdh_x_of(old(self).private_key->Some_0@, payload@.subrange(1, 66))->Some_0,
                true,
            ) && acts@.len() == 1 && (acts@[0] matches Action::SendFrame(f) && f@ == old(
                self,
            ).ukey_client_finish_msg_data->Some_0@)),
            msg is ConsentResponse && old(self).kind == TransferKind::Outbound && old(self).state
                == TransferState::SentIntroduction ==> r is Ok && final(self).state == (if msg
                ->ConsentResponse_accepted {
                TransferState::SendingFiles
            } else {
                TransferState::Rejected
            }),
    {
        match msg {
            WireMsg::Disconnection => {
                self.state = TransferState::Disconnected;
                let mut out: Vec<Action> = Vec::new();
                out.push(Action::StateChanged(TransferState::Disconnected));
                Ok(out)
            }
            WireMsg::CancelTransfer { .. } => {
                self.state = TransferState::Cancelled;
                let mut out: Vec<Action> = Vec::new();
                out.push(Action::StateChanged(TransferState::Cancelled));
                Ok(out)
            }
            WireMsg::ConnectionRequest { device_name, device_type, .. } => {
                if !matches!(&self.kind, TransferKind::Inbound) || !matches!(
                    &self.state,
                    TransferState::Initial,
                ) {
                    return self.fail(TransferError::ProtocolViolation);
                }
                let name = utf8_lossy(&device_name);
                self.remote_device_info = Some(RemoteDeviceInfo { name, device_type });
                self.state = TransferState::ReceivedConnectionRequest;
                Ok(Vec::new())
            }
            WireMsg::UkeyClientInit { commitment } => {
                if !matches!(&self.kind, TransferKind::Inbound) || !matches!(
                    &self.state,
                    TransferState::ReceivedConnectionRequest,
                ) {
                    return self.fail(TransferError::ProtocolViolation);
                }
                proof {
                    assert(commitment@ =~= payload@.subrange(1, 33));
                }
                self.cipher_commitment = Some(commitment);
                self.client_init_msg_data = Some(copy_bytes(payload));
                let (private_key, public_key) = p256_generate_keypair();
                let si_msg = WireMsg::UkeyServerInit { public_key: copy_bytes(&public_key) };
                let si_bytes = encode_wire_msg(&si_msg);
                self.private_key = Some(private_key);
                self.public_key = Some(public_key);
                self.server_init_data = Some(copy_bytes(&si_bytes));
                self.state = TransferState::SentUkeyServerInit;
                let mut out: Vec<Action> = Vec::new();
                out.push(Action::SendFrame(si_bytes));
                Ok(out)
            }
            WireMsg::UkeyClientFinished { public_key: peer_public } => {
                if !matches!(&self.kind, TransferKind::Inbound) || !matches!(
                    &self.state,
                    TransferState::SentUkeyServerInit,
                ) {
                    return self.fail(TransferError::ProtocolViolation);
                }
                proof {
                    assert(peer_public@ =~= payload@.subrange(1, 66));
                }
                self.on_client_finished(peer_public, payload)
            }
            WireMsg::UkeyServerInit { public_key: peer_public } => {
                if !matches!(&self.kind, TransferKind::Outbound) || !matches!(
                    &self.state,
                    TransferState::SentUkeyClientInit,
                ) {
                    return self.fail(TransferError::ProtocolViolation);
                }
                proof {
                    assert(peer_public@ =~= payload@.subrange(1, 66));
                }
                self.on_server_init(peer_public, payload)
            }
            WireMsg::ConnectionResponse { accepted } => {
                if !matches!(&self.kind, TransferKind::Outbound) || !matches!(
                    &self.state,
                    TransferState::SentUkeyClientFinish,
                ) {
                    return self.fail(TransferError::ProtocolViolation);
                }
                if !accepted {
                    self.state = TransferState::Rejected;
                    let mut out: Vec<Action> = Vec::new();
                    out.push(Action::StateChanged(TransferState::Rejected));
                    return Ok(out);
                }
                let mut out: Vec<Action> = Vec::new();
                match self.seal_message(&WireMsg::PairedKeyEncryption) {
                    Some(f) => {
                        out.push(Action::SendFrame(f));
                    }
                    None => {
                        return self.fail(TransferError::CryptoFailure);
                    }
                }
                self.state = TransferState::SentPairedKeyEncryption;
                Ok(out)
            }
            WireMsg::PairedKeyEncryption => {
                if !matches!(&self.state, TransferState::SentPairedKeyEncryption) {
                    return self.fail(TransferError::ProtocolViolation);
                }
                let mut out: Vec<Action> = Vec::new();
                match self.seal_message(&WireMsg::PairedKeyResult) {
                    Some(f) => {
                        out.push(Action::SendFrame(f));
                    }
                    None => {
                        return self.fail(TransferError::CryptoFailure);
                    }
                }
                Ok(out)
            }
            WireMsg::PairedKeyResult => {
                if !matches!(&self.state, TransferState::SentPairedKeyEncryption) {
                    return self.fail(TransferError::ProtocolViolation);
                }
                proof {
                    assert(step_allowed(
                        TransferState::SentPairedKeyEncryption,
                        TransferState::ReceivedPairedKeyResult,
                    ));
                    assert(step_allowed(
                        TransferState::ReceivedPairedKeyResult,
                        TransferState::SentPairedKeyResult,
                    ));
                    assert(step_allowed(
                        TransferState::SentPairedKeyResult,
                        TransferState::SentIntroduction,
                    ));
                }
                self.state = TransferState::SentPairedKeyResult;
                if matches!(&self.kind, TransferKind::Outbound) {
                    let intro = WireMsg::Introduction { payloads: self.take_outbound_descs() };
                    if !crate::wire::check_intro_wf(&intro) {
                        return self.fail(TransferError::ProtocolViolation);
                    }
                    let mut out: Vec<Action> = Vec::new();
                    match self.seal_message(&intro) {
                        Some(f) => {
                            out.push(Action::SendFrame(f));
                        }
                        None => {
                            return self.fail(TransferError::CryptoFailure);
                        }
                    }
                    self.state = TransferState::SentIntroduction;
                    Ok(out)
                } else {
                    Ok(Vec::new())
                }
            }
            WireMsg::Introduction { payloads } => {
                if !matches!(&self.kind, TransferKind::Inbound) || !matches!(
                    &self.state,
                    TransferState::SentPairedKeyResult,
                ) {
                    return self.fail(TransferError::ProtocolViolation);
                }
                self.register_introduction(payloads)
            }
            WireMsg::ConsentResponse { accepted } => {
                if !matches!(&self.kind, TransferKind::Outbound) || !matches!(
                    &self.state,
                    TransferState::SentIntroduction,
                ) {
                    return self.fail(TransferError::ProtocolViolation);
                }
                let mut out: Vec<Action> = Vec::new();
                if accepted {
                    self.state = TransferState::SendingFiles;
                    out.push(Action::StateChanged(TransferState::SendingFiles));
                } else {
                    self.state = TransferState::Rejected;
                    out.push(Action::StateChanged(TransferState::Rejected));
                }
                Ok(out)
            }
            WireMsg::PayloadChunk { payload_id, offset, is_last, data } => {
                if !matches!(&self.state, TransferState::ReceivingFiles) {
                    return self.fail(TransferError::ProtocolViolation);
                }
                self.apply_chunk(payload_id, offset, is_last, data)
            }
        }
    }


    /// Responder's handling of the opened commitment: checks the hash
    /// binding, derives the session keys and pin, and answers with the
    /// sealed `ConnectionResponse` and `PairedKeyEncryption` frames.
    #[verifier::spinoff_prover]
    fn on_client_finished(&mut self, peer_public: Vec<u8>, payload: &Vec<u8>) -> (r: Result<
        Vec<Action>,
        TransferError,
    >)
        requires
            old(self).wf(),
            old(self).kind == TransferKind::Inbound,
            old(self).state == TransferState::SentUkeyServerInit,
            peer_public@.len() == 65,
            payload@ == seq![4u8] + peer_public@,
        ensures
            evolves(*old(self), *final(self)),
            final(self).client_seq == old(self).client_seq,
            r matches Ok(acts) ==> actions_gated(acts@, *old(self)),
            r is Err ==> final(self).state == TransferState::Disconnected,
            old(self).cipher_commitment matches Some(c) && sha256_of(payload@) != c@ ==> r
                == Result::<Vec<Action>, TransferError>::Err(TransferError::ProtocolViolation)
                && final(self).state == TransferState::Disconnected,
            (old(self).cipher_commitment matches Some(c) && sha256_of(payload@) == c@) && old(
                self,
            ).private_key is Some && old(self).client_init_msg_data is Some && old(
                self,
            ).server_init_data is Some && p256_ecdh_x_of(
                old(self).private_key->Some_0@,
                payload@.subrange(1, 66),
            ) is Some && old(self).server_seq < 0x7ffdffff ==> (r matches Ok(acts) && final(self).state == TransferState::SentPairedKeyEncryption && final(self).encryption_done
                && armed_from(
                *final(self),
                old(self).client_init_msg_data->Some_0@ + old(self).server_init_data->Some_0@,
                p256_ecdh_x_of(old(self).private_key->Some_0@, payload@.subrange(1, 66))->Some_0,
                false,
            ) && acts@.len() == 2 && acts@[0] is SendFrame && acts@[1] is SendFrame
                && final(self).server_seq == old(self).server_seq + 2),
    {
        proof {
            assert(peer_public@ =~= payload@.subrange(1, 66));
        }
        let commitment_ok = match &self.cipher_commitment {
            Some(c) => verify_commitment(payload, c),
            None => false,
        };
        if !commitment_ok {
            return self.fail(TransferError::ProtocolViolation);
        }
        if !self.arm_record_layer(&peer_public, false) {
            return self.fail(TransferError::CryptoFailure);
        }
        let mut out: Vec<Action> = Vec::new();
        match self.seal_message(&WireMsg::ConnectionResponse { accepted: true }) {
            Some(f) => {
                out.push(Action::SendFrame(f));
            }
            None => {
                return self.fail(TransferError::CryptoFailure);
            }
        }
        match self.seal_message(&WireMsg::PairedKeyEncryption) {
            Some(f) => {
                out.push(Action::SendFrame(f));
            }
            None => {
                return self.fail(TransferError::CryptoFailure);
            }
        }
        proof {
            assert(step_allowed(
                TransferState::SentUkeyServerInit,
                TransferState::ReceivedUkeyClientFinish,
            ));
            assert(step_allowed(
                TransferState::ReceivedUkeyClientFinish,
                TransferState::SentConnectionResponse,
            ));
            assert(step_allowed(
                TransferState::SentConnectionResponse,
                TransferState::SentPairedKeyEncryption,
            ));
        }
        self.state = TransferState::SentPairedKeyEncryption;
        Ok(out)
    }

    /// Initiator's handling of the responder's revealed key: stores the
    /// transcript, opens its commitment by sending the prepared
    /// `ClientFinished` frame, and derives the session keys and pin.
    #[verifier::spinoff_prover]
    fn on_server_init(&mut self, peer_public: Vec<u8>, payload: &Vec<u8>) -> (r: Result<
        Vec<Action>,
        TransferError,
    >)
        requires
            old(self).wf(),
            old(self).kind == TransferKind::Outbound,
            old(self).state == TransferState::SentUkeyClientInit,
            peer_public@.len() == 65,
            payload@ == seq![3u8] + peer_public@,
        ensures
            evolves(*old(self), *final(self)),
            final(self).client_seq == old(self).client_seq,
            r matches Ok(acts) ==> actions_gated(acts@, *old(self)),
            r is Err ==> final(self).state == TransferState::Disconnected,
            old(self).ukey_client_finish_msg_data is Some && old(self).private_key is Some && old(
                self,
            ).client_init_msg_data is Some && p256_ecdh_x_of(
                old(self).private_key->Some_0@,
                payload@.subrange(1, 66),
            ) is Some ==> (r matches Ok(acts) && final(self).state
                == TransferState::SentUkeyClientFinish && final(self).encryption_done
                && armed_from(
                *final(self),
                old(self).client_init_msg_data->Some_0@ + payload@,
                p256_ecdh_x_of(old(self).private_key->Some_0@, payload@.subrange(1, 66))->Some_0,
                true,
            ) && acts@.len() == 1 && (acts@[0] matches Action::SendFrame(f) && f@ == old(
                self,
            ).ukey_client_finish_msg_data->Some_0@)),
    {
        proof {
            assert(peer_public@ =~= payload@.subrange(1, 66));
        }
        self.server_init_data = Some(copy_bytes(payload));
        let cf_bytes = match &self.ukey_client_finish_msg_data {
            Some(b) => copy_bytes(b),
            None => {
                return self.fail(TransferError::ProtocolViolation);
            }
        };
        if !self.arm_record_layer(&peer_public, true) {
            return self.fail(TransferError::CryptoFailure);
        }
        self.state = TransferState::SentUkeyClientFinish;
        let mut out: Vec<Action> = Vec::new();
        out.push(Action::SendFrame(cf_bytes));
        Ok(out)
    }

    /// Takes the queued outbound payload descriptions out of the session.
    fn take_outbound_descs(&mut self) -> (r: Vec<PayloadDesc>)
        ensures
            r@ == old(self).outbound_descs@,
            final(self).outbound_descs@.len() == 0,
            final(self).state == old(self).state,
            final(self).kind == old(self).kind,
            final(self).server_seq == old(self).server_seq,
            final(self).client_seq == old(self).client_seq,
            final(self).encryption_done == old(self).encryption_done,
            final(self).decrypt_key == old(self).decrypt_key,
            final(self).recv_hmac_key == old(self).recv_hmac_key,
            final(self).encrypt_key == old(self).encrypt_key,
            final(self).send_hmac_key == old(self).send_hmac_key,
            final(self).transferred_files@ == old(self).transferred_files@,
            final(self).payload_buffers@ == old(self).payload_buffers@,
            final(self).transfer_metadata == old(self).transfer_metadata,
            final(self).pending_payloads == old(self).pending_payloads,
    {
        let mut taken: Vec<PayloadDesc> = Vec::new();
        core::mem::swap(&mut taken, &mut self.outbound_descs);
        taken
    }
}

impl InnerState {
    /// Computes the shared secret with the peer's public key, derives the
    /// four record-layer keys and the pin, and arms the record layer.
    /// `initiator` picks which key pair is used for sending.  Returns
    /// false when the peer's point or the stored secret is invalid.
    fn arm_record_layer(&mut self, peer_public: &Vec<u8>, initiator: bool) -> (r: bool)
        requires
            old(self).wf(),
        ensures
            final(self).wf(),
            evolves(*old(self), *final(self)),
            final(self).state == old(self).state,
            r ==> final(self).encryption_done,
            !r ==> *final(self) == *old(self),
            final(self).transfer_metadata == old(self).transfer_metadata,
            final(self).transferred_files@ == old(self).transferred_files@,
            final(self).server_seq == old(self).server_seq,
            final(self).client_seq == old(self).client_seq,
            r <==> old(self).private_key is Some && old(self).client_init_msg_data is Some
                && old(self).server_init_data is Some && p256_ecdh_x_of(
                old(self).private_key->Some_0@,
                peer_public@,
            ) is Some,
            r ==> armed_from(
                *final(self),
                old(self).client_init_msg_data->Some_0@ + old(self).server_init_data->Some_0@,
                p256_ecdh_x_of(old(self).private_key->Some_0@, peer_public@)->Some_0,
                initiator,
            ),
    {
        let shared = match &self.private_key {
            Some(private_key) => p256_ecdh_x(private_key, peer_public),
            None => None,
        };
        let shared = match shared {
            Some(x) => x,
            None => {
                return false;
            }
        };
        let (ci, si) = match (&self.client_init_msg_data, &self.server_init_data) {
            (Some(ci), Some(si)) => (ci, si),
            _ => {
                return false;
            }
        };
        let mut transcript: Vec<u8> = Vec::new();
        crate::wire::push_bytes(&mut transcript, ci);
        crate::wire::push_bytes(&mut transcript, si);
        let keys = derive_session_keys(&transcript, &shared);
        if initiator {
            self.encrypt_key = Some(keys.client_enc);
            self.send_hmac_key = Some(keys.client_mac);
            self.decrypt_key = Some(keys.server_enc);
            self.recv_hmac_key = Some(keys.server_mac);
        } else {
            self.encrypt_key = Some(keys.server_enc);
            self.send_hmac_key = Some(keys.server_mac);
            self.decrypt_key = Some(keys.client_enc);
            self.recv_hmac_key = Some(keys.client_mac);
        }
        self.pin_code = Some(derive_pin(&transcript));
        self.encryption_done = true;
        true
    }

    /// Registers the payloads announced by the sender, publishes the
    /// transfer metadata, and parks the session at the consent gate.
    fn register_introduction(&mut self, payloads: Vec<PayloadDesc>) -> (r: Result<
        Vec<Action>,
        TransferError,
    >)
        requires
            old(self).wf(),
            old(self).state == TransferState::SentPairedKeyResult,
        ensures
            evolves(*old(self), *final(self)),
            final(self).client_seq == old(self).client_seq,
            r matches Ok(acts) ==> actions_gated(acts@, *old(self)) && final(self).state
                == TransferState::WaitingForUserConsent,
            r is Err ==> final(self).state == TransferState::Disconnected,
    {
        if self.transferred_files.len() > 0 {
            return self.fail(TransferError::ProtocolViolation);
        }
        let mut total: u64 = 0;
        let mut files: Vec<FileEntry> = Vec::new();
        let mut buffers: Vec<BufferEntry> = Vec::new();
        let mut names: Vec<String> = Vec::new();
        let mut text_tag: Option<TextPayloadInfo> = None;
        let mut i: usize = 0;
        while i < payloads.len()
            invariant
                i <= payloads@.len(),
                *self == *old(self),
                old(self).wf(),
                old(self).state == TransferState::SentPairedKeyResult,
                files@.len() == i,
                forall|j: int|
                    0 <= j < i ==> (#[trigger] files@[j]).payload_id == payloads@[j].id
                        && files@[j].bytes_transferred == 0,
                files_unique(files@),
                files_bounded(files@),
            decreases payloads@.len() - i,
        {
            let d = &payloads[i];
            if total > u64::MAX - d.size {
                return self.fail(TransferError::ProtocolViolation);
            }
            match find_file_index(&files, d.id) {
                Some(_) => {
                    return self.fail(TransferError::ProtocolViolation);
                }
                None => {}
            }
            total = total + d.size;
            files.push(
                FileEntry {
                    payload_id: d.id,
                    kind: d.kind,
                    name: copy_bytes(&d.name),
                    total_size: d.size,
                    bytes_transferred: 0,
                },
            );
            match d.kind {
                PayloadKind::File => {
                    names.push(utf8_lossy(&d.name));
                }
                PayloadKind::Text => {
                    buffers.push(BufferEntry { payload_id: d.id, data: Vec::new() });
                    text_tag = Some(TextPayloadInfo::Text(d.id));
                }
                PayloadKind::Url => {
                    buffers.push(BufferEntry { payload_id: d.id, data: Vec::new() });
                    text_tag = Some(TextPayloadInfo::Url(d.id));
                }
                PayloadKind::Wifi => {
                    buffers.push(BufferEntry { payload_id: d.id, data: Vec::new() });
                    text_tag = Some(
                        TextPayloadInfo::Wifi(d.id, utf8_lossy(&d.name), SecurityType::WpaPsk),
                    );
                }
            }
            i = i + 1;
        }
        let count = payloads.len();
        self.transferred_files = files;
        self.payload_buffers = buffers;
        self.pending_payloads = count as u64;
        self.text_payload = text_tag;
        let source = match &self.remote_device_info {
            Some(info) => Some(RemoteDeviceInfo { name: info.name.clone(), device_type: info.device_type }),
            None => None,
        };
        let pin_code = match &self.pin_code {
            Some(p) => Some(p.clone()),
            None => None,
        };
        self.transfer_metadata = Some(
            TransferMetadata {
                source,
                payload: Some(TransferPayload::Files(names)),
                pin_code,
                total_bytes: total,
                ack_bytes: 0,
                destination_count: count as u64,
            },
        );
        self.state = TransferState::WaitingForUserConsent;
        let mut out: Vec<Action> = Vec::new();
        out.push(Action::StateChanged(TransferState::WaitingForUserConsent));
        out.push(Action::Progress { ack_bytes: 0, total_bytes: total });
        Ok(out)
    }

    /// Applies one received payload chunk.  A chunk for an undeclared
    /// payload, at the wrong position, past the declared size, or a final
    /// chunk that does not complete its payload is fatal.  File bytes are
    /// written to disk, small payloads are assembled in memory, and when
    /// the last payload completes the session finishes.
    fn apply_chunk(&mut self, payload_id: i64, offset: u64, is_last: bool, data: Vec<u8>) -> (r:
        Result<Vec<Action>, TransferError>)
        requires
            old(self).wf(),
            old(self).state == TransferState::ReceivingFiles,
        ensures
            evolves(*old(self), *final(self)),
            final(self).client_seq == old(self).client_seq,
            r matches Ok(acts) ==> actions_gated(acts@, *old(self)),
            r is Err ==> final(self).state == TransferState::Disconnected,
            r is Ok ==> final(self).state == TransferState::ReceivingFiles || final(self).state
                == TransferState::Finished,
            (forall|i: int|
                0 <= i < old(self).transferred_files@.len() ==> (#[trigger] old(
                    self,
                ).transferred_files@[i]).payload_id != payload_id) ==> r is Err,
    {
        let len = data.len() as u64;
        let idx = match find_file_index(&self.transferred_files, payload_id) {
            Some(i) => i,
            None => {
                return self.fail(TransferError::ProtocolViolation);
            }
        };
        let (entry_kind, entry_done, entry_total, name_copy) = {
            let f = &self.transferred_files[idx];
            (f.kind, f.bytes_transferred, f.total_size, copy_bytes(&f.name))
        };
        if offset != entry_done {
            return self.fail(TransferError::ProtocolViolation);
        }
        if len > entry_total - entry_done {
            return self.fail(TransferError::ProtocolViolation);
        }
        let new_done = entry_done + len;
        if is_last && new_done != entry_total {
            return self.fail(TransferError::ProtocolViolation);
        }
        let (ack, total) = match &self.transfer_metadata {
            Some(m) => (m.ack_bytes, m.total_bytes),
            None => {
                return self.fail(TransferError::ProtocolViolation);
            }
        };
        if len > total - ack {
            return self.fail(TransferError::ProtocolViolation);
        }
        let new_ack = ack + len;
        let mut out: Vec<Action> = Vec::new();
        match entry_kind {
            PayloadKind::File => {
                out.push(
                    Action::WriteFile {
                        payload_id,
                        name: name_copy,
                        offset: entry_done,
                        data,
                    },
                );
                if is_last {
                    out.push(Action::SyncFile { payload_id });
                }
            }
            _ => {
                match find_buffer_index(&self.payload_buffers, payload_id) {
                    Some(bi) => {
                        let buf = &mut self.payload_buffers[bi];
                        crate::wire::push_bytes(&mut buf.data, &data);
                    }
                    None => {
                        return self.fail(TransferError::ProtocolViolation);
                    }
                }
                if is_last {
                    self.finish_text_payload(payload_id);
                }
            }
        }
        let new_pending: u64 = if is_last && self.pending_payloads > 0 {
            self.pending_payloads - 1
        } else {
            self.pending_payloads
        };
        if new_pending == 0 {
            if !self.complete_after(idx, new_done) {
                return self.fail(TransferError::ProtocolViolation);
            }
            if new_ack != total {
                return self.fail(TransferError::ProtocolViolation);
            }
        }
        let ghost pre_files = self.transferred_files@;
        {
            let f = &mut self.transferred_files[idx];
            f.bytes_transferred = new_done;
        }
        proof {
            assert(self.transferred_files@[idx as int].payload_id == pre_files[idx as int].payload_id);
            assert(self.transferred_files@[idx as int].total_size == pre_files[idx as int].total_size);
            assert forall|a: int|
                0 <= a < self.transferred_files@.len() && a != idx implies
            #[trigger] self.transferred_files@[a] == pre_files[a] by {}
        }
        match &mut self.transfer_metadata {
            Some(m) => {
                m.ack_bytes = new_ack;
            }
            None => {}
        }
        proof {
            assert(self.transfer_metadata matches Some(m) && m.ack_bytes == new_ack
                && m.total_bytes == total);
        }
        out.push(Action::Progress { ack_bytes: new_ack, total_bytes: total });
        self.pending_payloads = new_pending;
        if new_pending == 0 {
            proof {
                assert forall|j: int| 0 <= j < self.transferred_files@.len() implies (
                #[trigger] self.transferred_files@[j]).bytes_transferred
                    == self.transferred_files@[j].total_size by {
                    if j != idx {
                        assert(self.transferred_files@[j] == pre_files[j]);
                    }
                }
            }
            self.state = TransferState::Finished;
            out.push(Action::StateChanged(TransferState::Finished));
        }
        Ok(out)
    }

    /// Whether every declared payload would be complete once the payload
    /// at `idx` reaches `new_done` bytes.
    fn complete_after(&self, idx: usize, new_done: u64) -> (r: bool)
        requires
            idx < self.transferred_files@.len(),
        ensures
            r <==> (new_done == self.transferred_files@[idx as int].total_size && forall|j: int|
                0 <= j < self.transferred_files@.len() && j != idx ==> (
                #[trigger] self.transferred_files@[j]).bytes_transferred
                    == self.transferred_files@[j].total_size),
    {
        if new_done != self.transferred_files[idx].total_size {
            return false;
        }
        let mut i: usize = 0;
        while i < self.transferred_files.len()
            invariant
                i <= self.transferred_files@.len(),
                idx < self.transferred_files@.len(),
                forall|j: int|
                    0 <= j < i && j != idx ==> (
                    #[trigger] self.transferred_files@[j]).bytes_transferred
                        == self.transferred_files@[j].total_size,
            decreases self.transferred_files@.len() - i,
        {
            if i != idx && self.transferred_files[i].bytes_transferred
                != self.transferred_files[i].total_size {
                proof {
                    assert(self.transferred_files@[i as int].bytes_transferred
                        != self.transferred_files@[i as int].total_size);
                }
                return false;
            }
            i = i + 1;
        }
        true
    }

    /// Whether every declared payload has received exactly its size.
    fn all_payloads_complete(&self) -> (r: bool)
        ensures
            r == files_complete(self.transferred_files@),
    {
        let files = &self.transferred_files;
        let mut i: usize = 0;
        while i < files.len()
            invariant
                i <= files@.len(),
                files@ == self.transferred_files@,
                forall|j: int|
                    0 <= j < i ==> (#[trigger] files@[j]).bytes_transferred == files@[j].total_size,
            decreases files@.len() - i,
        {
            if files[i].bytes_transferred != files[i].total_size {
                proof {
                    assert(files@[i as int].bytes_transferred != files@[i as int].total_size);
                }
                return false;
            }
            i = i + 1;
        }
        true
    }

    /// Decodes a completed small payload into the published metadata,
    /// according to its announced kind.
    fn finish_text_payload(&mut self, payload_id: i64)
        requires
            old(self).wf(),
        ensures
            final(self).wf(),
            evolves(*old(self), *final(self)),
            final(self).state == old(self).state,
            final(self).transferred_files@ == old(self).transferred_files@,
            final(self).client_seq == old(self).client_seq,
            ack_of(*final(self)) == ack_of(*old(self)),
            total_of(*final(self)) == total_of(*old(self)),
            final(self).transfer_metadata is Some <==> old(self).transfer_metadata is Some,
            final(self).pending_payloads == old(self).pending_payloads,
    {
        let text = match find_buffer_index(&self.payload_buffers, payload_id) {
            Some(bi) => utf8_lossy(&self.payload_buffers[bi].data),
            None => {
                return ;
            }
        };
        let decoded = match &self.text_payload {
            Some(TextPayloadInfo::Url(_)) => TransferPayload::Url(text),
            Some(TextPayloadInfo::Text(_)) => TransferPayload::Text(text),
            Some(TextPayloadInfo::Wifi(_, ssid, security)) => TransferPayload::Wifi {
                ssid: ssid.clone(),
                security: *security,
            },
            None => TransferPayload::Text(text),
        };
        match &mut self.transfer_metadata {
            Some(m) => {
                m.payload = Some(decoded);
            }
            None => {}
        }
    }

    /// Produces the next outgoing payload chunk of at most `max_len`
    /// bytes, sealed for the peer; finishes the session when every queued
    /// payload has been sent in full.
    pub fn produce_chunk(&mut self, max_len: usize) -> (r: Result<Vec<Action>, TransferError>)
        requires
            old(self).wf(),
            old(self).state == TransferState::SendingFiles,
            old(self).kind == TransferKind::Outbound,
            0 < max_len <= 0xFFFFFF,
        ensures
            evolves(*old(self), *final(self)),
            r matches Ok(acts) ==> actions_gated(acts@, *old(self)),
            r is Err ==> final(self).state == TransferState::Disconnected,
            r is Ok ==> final(self).state == TransferState::SendingFiles || final(self).state
                == TransferState::Finished,
            files_complete(old(self).transferred_files@) && ack_of(*old(self)) == total_of(
                *old(self),
            ) && old(self).transfer_metadata is Some ==> (r matches Ok(acts) && final(self).state
                == TransferState::Finished && acts@ =~= seq![
                Action::StateChanged(TransferState::Finished),
            ]),
            !files_complete(old(self).transferred_files@) ==> (r matches Ok(acts) ==> acts@.len()
                >= 2 && acts@[0] is SendFrame && ack_of(*final(self)) > ack_of(*old(self))),
    {
        let mut idx: usize = 0;
        let mut found = false;
        while idx < self.transferred_files.len() && !found
            invariant
                idx <= self.transferred_files@.len(),
                *self == *old(self),
                old(self).wf(),
                found ==> idx < self.transferred_files@.len() && self.transferred_files@[
                    idx as int
                ].bytes_transferred < self.transferred_files@[idx as int].total_size,
                !found ==> forall|j: int|
                    0 <= j < idx ==> (#[trigger] self.transferred_files@[j]).bytes_transferred
                        == self.transferred_files@[j].total_size,
            decreases self.transferred_files@.len() - idx + (if found { 0int } else { 1int }),
        {
            if self.transferred_files[idx].bytes_transferred
                < self.transferred_files[idx].total_size {
                found = true;
            } else {
                idx = idx + 1;
            }
        }
        if !found {
            let (ack, total) = match &self.transfer_metadata {
                Some(m) => (m.ack_bytes, m.total_bytes),
                None => {
                    return self.fail(TransferError::ProtocolViolation);
                }
            };
            if !self.all_payloads_complete() || ack != total {
                return self.fail(TransferError::ProtocolViolation);
            }
            self.state = TransferState::Finished;
            let mut out: Vec<Action> = Vec::new();
            out.push(Action::StateChanged(TransferState::Finished));
            return Ok(out);
        }
        let (payload_id, done, total_size) = {
            let f = &self.transferred_files[idx];
            (f.payload_id, f.bytes_transferred, f.total_size)
        };
        let remaining = total_size - done;
        let n: u64 = if (max_len as u64) < remaining {
            max_len as u64
        } else {
            remaining
        };
        let chunk_data = match find_buffer_index(&self.payload_buffers, payload_id) {
            Some(bi) => {
                let buf = &self.payload_buffers[bi];
                if done > buf.data.len() as u64 || n > buf.data.len() as u64 - done {
                    return self.fail(TransferError::ProtocolViolation);
                }
                crate::wire::read_bytes(&buf.data, done as usize, n as usize)
            }
            None => {
                return self.fail(TransferError::ProtocolViolation);
            }
        };
        let new_done = done + n;
        let is_last = new_done == total_size;
        let msg = WireMsg::PayloadChunk { payload_id, offset: done, is_last, data: chunk_data };
        let (ack, total) = match &self.transfer_metadata {
            Some(m) => (m.ack_bytes, m.total_bytes),
            None => {
                return self.fail(TransferError::ProtocolViolation);
            }
        };
        if n > total - ack {
            return self.fail(TransferError::ProtocolViolation);
        }
        let new_ack = ack + n;
        let new_pending: u64 = if is_last && self.pending_payloads > 0 {
            self.pending_payloads - 1
        } else {
            self.pending_payloads
        };
        if new_pending == 0 {
            if !self.complete_after(idx, new_done) {
                return self.fail(TransferError::ProtocolViolation);
            }
            if new_ack != total {
                return self.fail(TransferError::ProtocolViolation);
            }
        }
        let mut out: Vec<Action> = Vec::new();
        match self.seal_message(&msg) {
            Some(f) => {
                out.push(Action::SendFrame(f));
            }
            None => {
                return self.fail(TransferError::CryptoFailure);
            }
        }
        let ghost pre_files = self.transferred_files@;
        {
            let f = &mut self.transferred_files[idx];
            f.bytes_transferred = new_done;
        }
        proof {
            assert(self.transferred_files@[idx as int].payload_id == pre_files[idx as int].payload_id);
            assert(self.transferred_files@[idx as int].total_size == pre_files[idx as int].total_size);
            assert forall|a: int|
                0 <= a < self.transferred_files@.len() && a != idx implies
            #[trigger] self.transferred_files@[a] == pre_files[a] by {}
        }
        match &mut self.transfer_metadata {
            Some(m) => {
                m.ack_bytes = new_ack;
            }
            None => {}
        }
        proof {
            assert(self.transfer_metadata matches Some(m) && m.ack_bytes == new_ack
                && m.total_bytes == total);
        }
        out.push(Action::Progress { ack_bytes: new_ack, total_bytes: total });
        self.pending_payloads = new_pending;
        if new_pending == 0 {
            proof {
                assert forall|j: int| 0 <= j < self.transferred_files@.len() implies (
                #[trigger] self.transferred_files@[j]).bytes_transferred
                    == self.transferred_files@[j].total_size by {
                    if j != idx {
                        assert(self.transferred_files@[j] == pre_files[j]);
                    }
                }
            }
            self.state = TransferState::Finished;
            out.push(Action::StateChanged(TransferState::Finished));
        }
        Ok(out)
    }
}


/// How many bytes may accumulate between two progress events.
pub const PROGRESS_BYTES_STEP: u64 = 1048576;

/// How many milliseconds may pass between two progress events.
pub const PROGRESS_MS_STEP: u64 = 100;

/// Whether a progress event is due: at most one every hundred
/// milliseconds or every mebibyte, whichever comes first.  The driver
/// calls this with its clock before forwarding a progress action to the
/// user interface.
pub fn progress_due(last_emit_ms: u64, now_ms: u64, bytes_since: u64) -> (r: bool)
    ensures
        r == (now_ms >= last_emit_ms + PROGRESS_MS_STEP || bytes_since >= PROGRESS_BYTES_STEP),
{
    let time_due = now_ms >= last_emit_ms && now_ms - last_emit_ms >= PROGRESS_MS_STEP;
    time_due || bytes_since >= PROGRESS_BYTES_STEP
}

} // verus!



