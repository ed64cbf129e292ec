//! Messages exchanged with the user-interface channel, and the snapshot
//! model a front end keeps of the running transfers.

use vstd::prelude::*;

use crate::state::TransferState;

verus! {

/// A command from the user interface to a session.
#[derive(Clone, Copy, Debug, PartialEq, Eq, Structural)]
pub enum TransferAction {
    ConsentAccept,
    ConsentDecline,
    TransferCancel,
}

/// The direction of a transfer session.
#[derive(Clone, Copy, Debug, PartialEq, Eq, Structural)]
pub enum TransferKind {
    Inbound,
    Outbound,
}

/// The security type of shared Wi-Fi credentials.
#[derive(Clone, Copy, Debug, PartialEq, Eq, Structural)]
pub enum SecurityType {
    UnknownSecurityType,
    Open,
    WpaPsk,
    Wep,
}

/// Which small in-memory payload a session is currently assembling, keyed
/// by its payload id.
#[derive(Clone, Debug)]
pub enum TextPayloadInfo {
    Url(i64),
    Text(i64),
    Wifi(i64, String, SecurityType),
}

/// The kind of a small in-memory payload.
#[derive(Clone, Copy, Debug, PartialEq, Eq, Structural)]
pub enum TextPayloadType {
    Url,
    Text,
    Wifi,
}

/// The payload id a text payload tag refers to.
pub open spec fn text_payload_id(t: TextPayloadInfo) -> i64 {
    match t {
        TextPayloadInfo::Url(value) => value,
        TextPayloadInfo::Text(value) => value,
        TextPayloadInfo::Wifi(value, _, _) => value,
    }
}

impl TextPayloadInfo {
    /// The payload id this tag refers to, whichever kind it is.
    pub fn get_i64_value(&self) -> (r: i64)
        ensures
            r == text_payload_id(*self),
    {
        match self {
            TextPayloadInfo::Url(value) => *value,
            TextPayloadInfo::Text(value) => *value,
            TextPayloadInfo::Wifi(value, _, _) => *value,
        }
    }
}

/// The peer device of a session.
#[derive(Clone, Debug)]
pub struct RemoteDeviceInfo {
    pub name: String,
    pub device_type: u8,
}

/// What a transfer carries, for display.
#[derive(Clone, Debug)]
pub enum TransferPayload {
    Files(Vec<String>),
    Text(String),
    Url(String),
    Wifi { ssid: String, security: SecurityType },
}

/// The user-facing snapshot of one session: source device, payload
/// summary, byte counts and pin.
#[derive(Clone, Debug)]
pub struct TransferMetadata {
    pub source: Option<RemoteDeviceInfo>,
    pub payload: Option<TransferPayload>,
    pub pin_code: Option<String>,
    pub total_bytes: u64,
    pub ack_bytes: u64,
    pub destination_count: u64,
}

/// A state and metadata event published by a session.
#[derive(Clone, Debug)]
pub struct MessageClient {
    pub kind: TransferKind,
    pub state: Option<TransferState>,
    pub metadata: Option<TransferMetadata>,
}

/// One message on the user-interface channel: either a command into the
/// library or an event out of it.
#[derive(Clone, Debug)]
pub enum Message {
    Lib { action: TransferAction },
    Client(MessageClient),
}

impl Message {
    /// The event payload, when this message is an event.
    pub fn as_client(&self) -> (r: Option<&MessageClient>)
        ensures
            r is Some <==> self is Client,
            r matches Some(c) ==> *c == self->Client_0,
    {
        match self {
            Message::Client(message_client) => Some(message_client),
            _ => None,
        }
    }
}

/// A user-interface channel message addressed to one session.
#[derive(Clone, Debug)]
pub struct ChannelMessage {
    pub id: String,
    pub msg: Message,
}

/// What a front end keeps of one session.
#[derive(Clone, Debug)]
pub struct TransferSnapshot {
    pub id: String,
    pub device_name: String,
    pub file_names: Vec<String>,
    pub pin_code: Option<String>,
    pub state: TransferState,
    pub total_bytes: u64,
    pub ack_bytes: u64,
}

/// The state an event carries, `Initial` when it names none.
pub open spec fn event_state(c: MessageClient) -> TransferState {
    if c.state is Some {
        c.state->Some_0
    } else {
        TransferState::Initial
    }
}

/// The snapshots that survive pruning: every one not disconnected, in
/// their original order.
pub open spec fn kept_snapshots(s: Seq<TransferSnapshot>) -> Seq<TransferSnapshot>
    decreases s.len(),
{
    if s.len() == 0 {
        Seq::empty()
    } else if s[0].state != TransferState::Disconnected {
        seq![s[0]] + kept_snapshots(s.skip(1))
    } else {
        kept_snapshots(s.skip(1))
    }
}

/// Nothing disconnected survives pruning.
pub proof fn lemma_kept_snapshots_clean(s: Seq<TransferSnapshot>)
    ensures
        forall|i: int|
            0 <= i < kept_snapshots(s).len() ==> (#[trigger] kept_snapshots(s)[i]).state
                != TransferState::Disconnected,
    decreases s.len(),
{
    if s.len() > 0 {
        lemma_kept_snapshots_clean(s.skip(1));
    }
}

/// Pruning is idempotent: a pruned list prunes to itself.
pub proof fn lemma_kept_snapshots_idempotent(s: Seq<TransferSnapshot>)
    ensures
        kept_snapshots(kept_snapshots(s)) == kept_snapshots(s),
    decreases s.len(),
{
    if s.len() > 0 {
        lemma_kept_snapshots_idempotent(s.skip(1));
        if s[0].state != TransferState::Disconnected {
            let k = kept_snapshots(s);
            assert(k == seq![s[0]] + kept_snapshots(s.skip(1)));
            assert(k[0] == s[0]);
            assert(k.skip(1) =~= kept_snapshots(s.skip(1)));
            assert(kept_snapshots(k) == seq![k[0]] + kept_snapshots(k.skip(1)));
        }
    }
}

/// The position of the first snapshot carrying `id`, or a negative value
/// when none does.
pub open spec fn first_id_index(s: Seq<TransferSnapshot>, id: Seq<char>) -> int
    decreases s.len(),
{
    if s.len() == 0 {
        -1
    } else if s[0].id@ == id {
        0
    } else if first_id_index(s.skip(1), id) < 0 {
        -1
    } else {
        first_id_index(s.skip(1), id) + 1
    }
}

/// A match at `i` with no earlier match is the first match.
pub proof fn lemma_first_id_found(s: Seq<TransferSnapshot>, id: Seq<char>, i: int)
    requires
        0 <= i < s.len(),
        s[i].id@ == id,
        forall|k: int| 0 <= k < i ==> (#[trigger] s[k]).id@ != id,
    ensures
        first_id_index(s, id) == i,
    decreases i,
{
    if i > 0 {
        assert(s[0].id@ != id);
        lemma_first_id_found(s.skip(1), id, i - 1);
    }
}

/// With no match anywhere the index is negative.
pub proof fn lemma_first_id_none(s: Seq<TransferSnapshot>, id: Seq<char>)
    requires
        forall|k: int| 0 <= k < s.len() ==> (#[trigger] s[k]).id@ != id,
    ensures
        first_id_index(s, id) < 0,
    decreases s.len(),
{
    if s.len() > 0 {
        lemma_first_id_none(s.skip(1), id);
    }
}

/// How an event rewrites the snapshot it matches: the state always, the
/// byte counts when the event carries metadata, everything else kept.
pub open spec fn snapshot_updated(
    pre: TransferSnapshot,
    post: TransferSnapshot,
    c: MessageClient,
) -> bool {
    &&& post.id == pre.id
    &&& post.device_name == pre.device_name
    &&& post.file_names == pre.file_names
    &&& post.pin_code == pre.pin_code
    &&& post.state == event_state(c)
    &&& post.total_bytes == (if c.metadata is Some {
        c.metadata->Some_0.total_bytes
    } else {
        pre.total_bytes
    })
    &&& post.ack_bytes == (if c.metadata is Some {
        c.metadata->Some_0.ack_bytes
    } else {
        pre.ack_bytes
    })
}

/// The display label that precedes a text payload.
pub open spec fn text_label() -> Seq<char> {
    seq!['T', 'e', 'x', 't', ':', ' ']
}

/// The display label that precedes a URL payload.
pub open spec fn url_label() -> Seq<char> {
    seq!['U', 'R', 'L', ':', ' ']
}

/// The display label that precedes shared Wi-Fi credentials.
pub open spec fn wifi_label() -> Seq<char> {
    seq!['W', 'i', 'F', 'i', ':', ' ']
}

/// The name shown for a peer that sent no device name.
pub open spec fn unknown_label() -> Seq<char> {
    seq!['U', 'n', 'k', 'n', 'o', 'w', 'n']
}

/// The display names an event's payload yields: the file list as sent,
/// or one labelled entry for a text, URL or Wi-Fi payload.
pub open spec fn payload_names(p: Option<TransferPayload>) -> Seq<Seq<char>> {
    match p {
        None => Seq::empty(),
        Some(TransferPayload::Files(files)) => files.deep_view(),
        Some(TransferPayload::Text(t)) => seq![text_label() + t@],
        Some(TransferPayload::Url(u)) => seq![url_label() + u@],
        Some(TransferPayload::Wifi { ssid, security }) => seq![wifi_label() + ssid@],
    }
}

/// The snapshot a fresh event creates from its metadata.
pub open spec fn snapshot_created(t: TransferSnapshot, id: Seq<char>, c: MessageClient) -> bool
    recommends
        c.metadata is Some,
{
    let m = c.metadata->Some_0;
    &&& t.id@ == id
    &&& t.device_name@ == (match m.source {
        Some(src) => src.name@,
        None => unknown_label(),
    })
    &&& t.file_names.deep_view() == payload_names(m.payload)
    &&& (t.pin_code is Some <==> m.pin_code is Some)
    &&& (t.pin_code matches Some(p) ==> p@ == m.pin_code->Some_0@)
    &&& t.state == event_state(c)
    &&& t.total_bytes == m.total_bytes
    &&& t.ack_bytes == m.ack_bytes
}

/// Reads the state an event carries.
fn event_state_of(c: &MessageClient) -> (r: TransferState)
    ensures
        r == event_state(*c),
{
    match &c.state {
        Some(s) => *s,
        None => TransferState::Initial,
    }
}

/// Prefixes `value` with a display label given as ASCII bytes.
fn labelled(prefix: Vec<u8>, value: &String) -> (r: String)
    requires
        forall|i: int| 0 <= i < prefix@.len() ==> prefix@[i] < 128,
    ensures
        r@.len() == prefix@.len() + value@.len(),
        forall|i: int| 0 <= i < prefix@.len() ==> r@[i] == prefix@[i] as char,
        forall|i: int| 0 <= i < value@.len() ==> r@[prefix@.len() + i] == value@[i],
{
    let mut out = crate::text::ascii_string(&prefix);
    crate::text::append_str(&mut out, value.as_str());
    out
}

/// Copies a list of names.
fn copy_names(v: &Vec<String>) -> (r: Vec<String>)
    ensures
        r@.len() == v@.len(),
        forall|i: int| 0 <= i < v@.len() ==> (#[trigger] r@[i])@ == v@[i]@,
{
    let mut out: Vec<String> = Vec::new();
    let mut i: usize = 0;
    while i < v.len()
        invariant
            i <= v@.len(),
            out@.len() == i,
            forall|j: int| 0 <= j < i ==> (#[trigger] out@[j])@ == v@[j]@,
        decreases v@.len() - i,
    {
        out.push(v[i].clone());
        i = i + 1;
    }
    out
}

/// Folds one event into the snapshot list, exactly as the front end
/// keeps it: the first snapshot with the event's id is rewritten in
/// place; an unknown id with metadata appends a fresh snapshot; an
/// unknown id without metadata and every command (`Lib` message) change
/// nothing; and disconnected snapshots are dropped at the end of every
/// call.
pub fn apply_channel_message(transfers: &mut Vec<TransferSnapshot>, msg: &ChannelMessage)
    ensures
        forall|i: int|
            0 <= i < final(transfers)@.len() ==> (#[trigger] final(transfers)@[i]).state
                != TransferState::Disconnected,
        msg.msg is Lib ==> final(transfers)@ == kept_snapshots(old(transfers)@),
        msg.msg matches Message::Client(c) ==> ((first_id_index(old(transfers)@, msg.id@) >= 0
            ==> exists|u: TransferSnapshot|
            #[trigger] snapshot_updated(
                old(transfers)@[first_id_index(old(transfers)@, msg.id@)],
                u,
                c,
            ) && final(transfers)@ == kept_snapshots(
                old(transfers)@.update(first_id_index(old(transfers)@, msg.id@), u),
            )) && (first_id_index(old(transfers)@, msg.id@) < 0 && c.metadata is Some
            ==> exists|u: TransferSnapshot|
            #[trigger] snapshot_created(u, msg.id@, c) && final(transfers)@ == kept_snapshots(
                old(transfers)@.push(u),
            )) && (first_id_index(old(transfers)@, msg.id@) < 0 && c.metadata is None
            ==> final(transfers)@ == kept_snapshots(old(transfers)@))),
{
    proof {
        lemma_kept_snapshots_clean(old(transfers)@);
    }
    let client = match &msg.msg {
        Message::Client(c) => c,
        Message::Lib { .. } => {
            prune_disconnected(transfers);
            return ;
        }
    };
    let state = event_state_of(client);
    let mut i: usize = 0;
    while i < transfers.len()
        invariant
            i <= transfers@.len(),
            transfers@ == old(transfers)@,
            msg.msg is Client,
            *client == msg.msg->Client_0,
            state == event_state(*client),
            forall|k: int| 0 <= k < i ==> (#[trigger] old(transfers)@[k]).id@ != msg.id@,
        decreases transfers@.len() - i,
    {
        if transfers[i].id == msg.id {
            proof {
                lemma_first_id_found(old(transfers)@, msg.id@, i as int);
            }
            let ghost pre = transfers@;
            let (new_total, new_ack) = match &client.metadata {
                Some(meta) => (meta.total_bytes, meta.ack_bytes),
                None => (transfers[i].total_bytes, transfers[i].ack_bytes),
            };
            {
                let entry = &mut transfers[i];
                entry.state = state;
                entry.total_bytes = new_total;
                entry.ack_bytes = new_ack;
            }
            let ghost u = transfers@[i as int];
            proof {
                assert(snapshot_updated(pre[i as int], u, *client));
                assert(transfers@ =~= pre.update(i as int, u));
                lemma_kept_snapshots_clean(pre.update(i as int, u));
            }
            prune_disconnected(transfers);
            return ;
        }
        i = i + 1;
    }
    proof {
        lemma_first_id_none(old(transfers)@, msg.id@);
    }
    let meta = match &client.metadata {
        Some(m) => m,
        None => {
            prune_disconnected(transfers);
            return ;
        }
    };
    let device_name = match &meta.source {
        Some(src) => src.name.clone(),
        None => crate::text::ascii_string(&vec![85u8, 110, 107, 110, 111, 119, 110]),
    };
    let file_names: Vec<String> = match &meta.payload {
        None => Vec::new(),
        Some(TransferPayload::Files(files)) => copy_names(files),
        Some(TransferPayload::Text(t)) => {
            let mut v: Vec<String> = Vec::new();
            v.push(labelled(vec![84u8, 101, 120, 116, 58, 32], t));
            v
        }
        Some(TransferPayload::Url(u)) => {
            let mut v: Vec<String> = Vec::new();
            v.push(labelled(vec![85u8, 82, 76, 58, 32], u));
            v
        }
        Some(TransferPayload::Wifi { ssid, .. }) => {
            let mut v: Vec<String> = Vec::new();
            v.push(labelled(vec![87u8, 105, 70, 105, 58, 32], ssid));
            v
        }
    };
    let pin_code = match &meta.pin_code {
        Some(p) => Some(p.clone()),
        None => None,
    };
    let ghost pre = transfers@;
    transfers.push(
        TransferSnapshot {
            id: msg.id.clone(),
            device_name,
            file_names,
            pin_code,
            state,
            total_bytes: meta.total_bytes,
            ack_bytes: meta.ack_bytes,
        },
    );
    let ghost u = transfers@[transfers@.len() - 1];
    proof {
        assert(u.file_names.deep_view() =~~= payload_names(client.metadata->Some_0.payload));
        if client.metadata->Some_0.source is Some {
            assert(u.device_name@ == client.metadata->Some_0.source->Some_0.name@);
        } else {
            assert(u.device_name@ =~= unknown_label());
        }
        assert(snapshot_created(u, msg.id@, *client));
        assert(transfers@ =~= pre.push(u));
        lemma_kept_snapshots_clean(pre.push(u));
    }
    prune_disconnected(transfers);
}

/// Removes exactly the snapshots whose session has disconnected; every
/// other snapshot stays, in order.  Pruning an already pruned list
/// changes nothing.
pub fn prune_disconnected(transfers: &mut Vec<TransferSnapshot>)
    ensures
        final(transfers)@ == kept_snapshots(old(transfers)@),
        forall|i: int|
            0 <= i < final(transfers)@.len() ==> (#[trigger] final(transfers)@[i]).state
                != TransferState::Disconnected,
{
    proof {
        lemma_kept_snapshots_clean(old(transfers)@);
    }
    let mut kept: Vec<TransferSnapshot> = Vec::new();
    while transfers.len() > 0
        invariant
            kept_snapshots(old(transfers)@) =~= kept@ + kept_snapshots(transfers@),
        decreases transfers@.len(),
    {
        let ghost prev = transfers@;
        let t = transfers.remove(0);
        let keep = match t.state {
            TransferState::Disconnected => false,
            _ => true,
        };
        proof {
            assert(t == prev[0]);
            assert(prev.skip(1) =~= transfers@);
            if keep {
                assert(kept_snapshots(prev) == seq![prev[0]] + kept_snapshots(transfers@));
                assert((kept@ + seq![t]) + kept_snapshots(transfers@) =~= kept@ + (seq![t]
                    + kept_snapshots(transfers@)));
            } else {
                assert(kept_snapshots(prev) == kept_snapshots(transfers@));
            }
        }
        if keep {
            kept.push(t);
        }
    }
    proof {
        assert(kept@ + kept_snapshots(transfers@) =~= kept@);
    }
    *transfers = kept;
}

} // verus!
