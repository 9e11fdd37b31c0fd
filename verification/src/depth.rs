//! The key depth feed: what is known of each key's depth, the frames that carry it, and
//! what clients may ask.
//!
//! Frames stand back-to-back on the stream, words low byte first. From the server:
//! `S` with a count and entries `(key, depth)`, `D` with one entry, `E` with an error
//! code. From a client, single bytes: `P` to ping, `Q` to ask for a fresh snapshot, `X` to
//! close.

use crate::bits::{high_byte, le16, le_bytes, low_byte, word};
use crate::text::{dec, push_dec};
use std::collections::HashMap;
use vstd::prelude::*;
use vstd::std_specs::iter::IteratorSpec;

verus! {

/// Default socket path of the depth server.
pub const DEFAULT_SOCKET_PATH: &'static str = "/run/iot_driver/depth.sock";

/// Environment variable that overrides the socket path.
pub const SOCKET_PATH_ENV: &'static str = "IOT_DRIVER_DEPTH_SOCK";

/// Error: a client sent an unknown command byte.
pub const ERROR_BAD_COMMAND: u8 = 1;

/// Error: there is no device with magnetic switches. It is sent when the device goes away
/// while a client is connected.
pub const ERROR_NO_DEVICE: u8 = 2;

/// Kind byte of a snapshot frame, `S`.
pub const SNAPSHOT_KIND: u8 = 0x53;

/// Kind byte of an event frame, `D`.
pub const EVENT_KIND: u8 = 0x44;

/// Kind byte of an error frame, `E`.
pub const ERROR_KIND: u8 = 0x45;

/// Command byte of a ping, `P`.
pub const PING: u8 = 0x50;

/// Answer to a ping, `O`.
pub const PONG: u8 = 0x4F;

/// Command byte of a query, `Q`.
pub const QUERY: u8 = 0x51;

/// Command byte of a close, `X`.
pub const CLOSE: u8 = 0x58;

/// A key's depth.
#[derive(Debug, Clone, Copy, PartialEq, Eq, Structural)]
pub struct DepthEvent {
    pub key_index: u8,
    pub depth_raw: u16,
}

impl DepthEvent {
    /// An entry from its three bytes.
    pub open spec fn decoded(b: Seq<u8>) -> DepthEvent {
        DepthEvent { key_index: b[0], depth_raw: le16(b[1], b[2]) }
    }

    /// The three bytes of an entry.
    pub open spec fn encoded(self) -> Seq<u8> {
        seq![self.key_index] + le_bytes(self.depth_raw)
    }

    /// An entry from its three bytes.
    pub fn from_le_raw(raw: [u8; 3]) -> (r: DepthEvent)
        ensures
            r == DepthEvent::decoded(raw@),
    {
        DepthEvent { key_index: raw[0], depth_raw: word(raw[1], raw[2]) }
    }
}

/// Whether a list holds exactly the entries of a map, each once.
pub open spec fn lists(entries: Seq<DepthEvent>, depths: Map<u8, u16>) -> bool {
    &&& forall|i: int|
        0 <= i < entries.len() ==> depths.contains_key((#[trigger] entries[i]).key_index)
            && depths[entries[i].key_index] == entries[i].depth_raw
    &&& forall|key: u8| #[trigger]
        depths.contains_key(key) ==> entries.contains(
            DepthEvent { key_index: key, depth_raw: depths[key] },
        )
    &&& forall|i: int, j: int|
        0 <= i < j < entries.len() ==> (#[trigger] entries[i]).key_index != (
        #[trigger] entries[j]).key_index
}

/// Last-known depth of each key that was ever reported.
pub struct DepthCache {
    depths: HashMap<u8, u16>,
}

impl View for DepthCache {
    type V = Map<u8, u16>;

    closed spec fn view(&self) -> Map<u8, u16> {
        self.depths@
    }
}

impl DepthCache {
    /// Nothing reported yet.
    pub fn new() -> (r: DepthCache)
        ensures
            r@ == Map::<u8, u16>::empty(),
    {
        DepthCache { depths: HashMap::new() }
    }

    /// Take a report in.
    pub fn update(&mut self, key_index: u8, depth_raw: u16)
        ensures
            final(self)@ == old(self)@.insert(key_index, depth_raw),
    {
        self.depths.insert(key_index, depth_raw);
    }

    /// All known depths, in no particular order. Keys at rest may have stale ones.
    pub fn snapshot(&self) -> (r: Vec<DepthEvent>)
        ensures
            lists(r@, self@),
            r@.len() <= 256,
    {
        let mut keys: Vec<u8> = Vec::new();
        for key in it: self.depths.keys()
            invariant
                keys@ == it.seq().unref().take(it.index()),
        {
            keys.push(*key);
        }
        let ghost all = self.depths.keys().remaining();
        assert(keys@ =~= all.unref());
        assert(keys@.no_duplicates());
        assert(keys@.to_set() == self.depths@.dom());
        proof {
            lemma_byte_list(keys@);
        }
        let mut out: Vec<DepthEvent> = Vec::new();
        let mut i: usize = 0;
        while i < keys.len()
            invariant
                i <= keys@.len(),
                keys@.no_duplicates(),
                keys@.to_set() == self.depths@.dom(),
                out@.len() == i,
                forall|k: int|
                    0 <= k < i ==> (#[trigger] out@[k]).key_index == keys@[k]
                        && self.depths@.contains_key(keys@[k]) && out@[k].depth_raw
                        == self.depths@[keys@[k]],
            decreases keys@.len() - i,
        {
            let key: u8 = keys[i];
            assert(keys@.to_set().contains(keys@[i as int]));
            assert(self.depths@.contains_key(key));
            if let Some(depth) = self.depths.get(&key) {
                out.push(DepthEvent { key_index: key, depth_raw: *depth });
            }
            i += 1;
        }
        assert forall|key: u8| #[trigger] self@.contains_key(key) implies out@.contains(
            DepthEvent { key_index: key, depth_raw: self@[key] },
        ) by {
            assert(keys@.to_set().contains(key));
            let k = choose|k: int| 0 <= k < keys@.len() && keys@[k] == key;
            assert(out@[k] == (DepthEvent { key_index: key, depth_raw: self@[key] }));
        }
        out
    }
}

/// There are only 256 different bytes.
proof fn lemma_byte_list(keys: Seq<u8>)
    requires
        keys.no_duplicates(),
    ensures
        keys.len() <= 256,
{
    let all = vstd::set_lib::set_int_range(0, 256);
    let ints = keys.map_values(|k: u8| k as int);
    assert(ints.no_duplicates());
    ints.unique_seq_to_set();
    vstd::set_lib::lemma_int_range(0, 256);
    assert(ints.to_set().subset_of(all)) by {
        assert forall|x: int| ints.to_set().contains(x) implies all.contains(x) by {
            let i = choose|i: int| 0 <= i < ints.len() && ints[i] == x;
            assert(ints[i] == keys[i] as int);
        }
    }
    vstd::set_lib::lemma_len_subset(ints.to_set(), all);
}

/// The bytes of a list of entries.
pub open spec fn entries_bytes(entries: Seq<DepthEvent>) -> Seq<u8>
    decreases entries.len(),
{
    if entries.len() == 0 {
        Seq::empty()
    } else {
        entries_bytes(entries.drop_last()) + entries.last().encoded()
    }
}

/// A snapshot frame. The count is a byte.
pub open spec fn snapshot_frame(entries: Seq<DepthEvent>) -> Seq<u8> {
    seq![SNAPSHOT_KIND, (entries.len() % 256) as u8] + entries_bytes(entries)
}

/// An event frame.
pub open spec fn event_frame(ev: DepthEvent) -> Seq<u8> {
    seq![EVENT_KIND] + ev.encoded()
}

/// An error frame.
pub open spec fn error_frame(code: u8) -> Seq<u8> {
    seq![ERROR_KIND, code]
}

/// Encode a list of entries as a snapshot frame.
pub fn encode_entries(entries: &[DepthEvent]) -> (r: Vec<u8>)
    ensures
        r@ == snapshot_frame(entries@),
{
    let mut out: Vec<u8> = vec![SNAPSHOT_KIND, (entries.len() % 256) as u8];
    let ghost head = out@;
    let mut i: usize = 0;
    assert(head =~= seq![SNAPSHOT_KIND, (entries@.len() % 256) as u8]);
    assert(entries@.take(0) =~= Seq::<DepthEvent>::empty());
    assert(out@ =~= head + entries_bytes(entries@.take(0)));
    while i < entries.len()
        invariant
            i <= entries@.len(),
            out@ == head + entries_bytes(entries@.take(i as int)),
        decreases entries@.len() - i,
    {
        let e: DepthEvent = entries[i];
        let ghost before = out@;
        assert(entries@.take(i + 1).drop_last() =~= entries@.take(i as int));
        out.push(e.key_index);
        out.push(low_byte(e.depth_raw));
        out.push(high_byte(e.depth_raw));
        assert(out@ =~= before + e.encoded());
        assert(out@ =~= head + entries_bytes(entries@.take(i + 1)));
        i += 1;
    }
    assert(entries@.take(i as int) =~= entries@);
    out
}

/// Encode what is known of all keys as a snapshot frame.
pub fn encode_snapshot(cache: &DepthCache) -> (r: Vec<u8>)
    ensures
        exists|entries: Seq<DepthEvent>| #[trigger]
            lists(entries, cache@) && r@ == snapshot_frame(entries),
{
    let entries: Vec<DepthEvent> = cache.snapshot();
    encode_entries(entries.as_slice())
}

/// Encode an event frame.
pub fn encode_event(ev: DepthEvent) -> (r: Vec<u8>)
    ensures
        r@ == event_frame(ev),
{
    let r: Vec<u8> = vec![
        EVENT_KIND,
        ev.key_index,
        low_byte(ev.depth_raw),
        high_byte(ev.depth_raw),
    ];
    assert(r@ =~= event_frame(ev));
    r
}

/// Encode an error frame.
pub fn encode_error(code: u8) -> (r: Vec<u8>)
    ensures
        r@ == error_frame(code),
{
    let r: Vec<u8> = vec![ERROR_KIND, code];
    assert(r@ =~= error_frame(code));
    r
}

/// An error that the server reports.
#[derive(Debug, Clone, Copy, PartialEq, Eq, Structural)]
pub enum SockError {
    BadCommand,
    NoDevice,
}

impl SockError {
    /// The error with a code.
    pub fn from_code(code: u8) -> (r: Result<SockError, String>)
        ensures
            code == ERROR_BAD_COMMAND ==> r == Ok::<SockError, String>(SockError::BadCommand),
            code == ERROR_NO_DEVICE ==> r == Ok::<SockError, String>(SockError::NoDevice),
            code != ERROR_BAD_COMMAND && code != ERROR_NO_DEVICE ==> (r matches Err(e) && e@
                == "unknown error code `"@ + dec(code as nat) + "`"@),
    {
        if code == ERROR_BAD_COMMAND {
            Ok(SockError::BadCommand)
        } else if code == ERROR_NO_DEVICE {
            Ok(SockError::NoDevice)
        } else {
            let mut e: String = "unknown error code `".to_owned();
            push_dec(&mut e, code as u64);
            e.append("`");
            Err(e)
        }
    }
}

/// A frame from the server.
#[derive(Debug, Clone, PartialEq, Eq)]
pub enum DepthFrame {
    Snapshot(Vec<DepthEvent>),
    Event(DepthEvent),
    Error(u8),
    /// A frame of an unknown kind, of which only the kind is known.
    Unknown(u8),
}

/// A [`DepthFrame`] with a sequence in place of the vector.
pub enum FrameView {
    Snapshot(Seq<DepthEvent>),
    Event(DepthEvent),
    Error(u8),
    Unknown(u8),
}

impl View for DepthFrame {
    type V = FrameView;

    open spec fn view(&self) -> FrameView {
        match *self {
            DepthFrame::Snapshot(v) => FrameView::Snapshot(v@),
            DepthFrame::Event(e) => FrameView::Event(e),
            DepthFrame::Error(c) => FrameView::Error(c),
            DepthFrame::Unknown(k) => FrameView::Unknown(k),
        }
    }
}

/// The entries that bytes hold from `at` on.
pub open spec fn entries_at(b: Seq<u8>, at: int, count: nat) -> Seq<DepthEvent> {
    Seq::new(count, |i: int| DepthEvent::decoded(b.subrange(at + 3 * i, at + 3 * i + 3)))
}

/// The first frame on a stream and its length, if it is all there.
pub open spec fn frame_in(b: Seq<u8>) -> Option<(FrameView, nat)> {
    if b.len() == 0 {
        None
    } else if b[0] == SNAPSHOT_KIND {
        if b.len() < 2 || b.len() < 2 + 3 * b[1] {
            None
        } else {
            Some(
                (
                    FrameView::Snapshot(entries_at(b, 2, b[1] as nat)),
                    (2 + 3 * b[1]) as nat,
                ),
            )
        }
    } else if b[0] == EVENT_KIND {
        if b.len() < 4 {
            None
        } else {
            Some((FrameView::Event(DepthEvent::decoded(b.subrange(1, 4))), 4))
        }
    } else if b[0] == ERROR_KIND {
        if b.len() < 2 {
            None
        } else {
            Some((FrameView::Error(b[1]), 2))
        }
    } else {
        Some((FrameView::Unknown(b[0]), 1))
    }
}

/// Decode the first frame on a stream; `None` if more bytes are needed.
pub fn decode_frame(b: &[u8]) -> (r: Option<(DepthFrame, usize)>)
    ensures
        match r {
            Some((frame, used)) => frame_in(b@) == Some((frame@, used as nat)) && 0 < used
                <= b@.len(),
            None => frame_in(b@) is None,
        },
{
    if b.len() == 0 {
        return None;
    }
    if b[0] == SNAPSHOT_KIND {
        if b.len() < 2 {
            return None;
        }
        let count: usize = b[1] as usize;
        if b.len() < 2 + 3 * count {
            return None;
        }
        let mut events: Vec<DepthEvent> = Vec::new();
        let ghost all = entries_at(b@, 2, count as nat);
        let mut i: usize = 0;
        while i < count
            invariant
                count <= 255,
                i <= count,
                b@.len() >= 2 + 3 * count,
                all == entries_at(b@, 2, count as nat),
                events@ == all.take(i as int),
            decreases count - i,
        {
            let raw: [u8; 3] = [b[2 + 3 * i], b[3 + 3 * i], b[4 + 3 * i]];
            assert(raw@ =~= b@.subrange(2 + 3 * i as int, 2 + 3 * i as int + 3));
            events.push(DepthEvent::from_le_raw(raw));
            assert(all.take(i + 1) =~= all.take(i as int).push(all[i as int]));
            i += 1;
        }
        assert(all.take(i as int) =~= all);
        Some((DepthFrame::Snapshot(events), 2 + 3 * count))
    } else if b[0] == EVENT_KIND {
        if b.len() < 4 {
            return None;
        }
        let raw: [u8; 3] = [b[1], b[2], b[3]];
        assert(raw@ =~= b@.subrange(1, 4));
        Some((DepthFrame::Event(DepthEvent::from_le_raw(raw)), 4))
    } else if b[0] == ERROR_KIND {
        if b.len() < 2 {
            return None;
        }
        Some((DepthFrame::Error(b[1]), 2))
    } else {
        Some((DepthFrame::Unknown(b[0]), 1))
    }
}

/// An entry that is encoded and decoded is the same.
pub proof fn entry_round_trip(ev: DepthEvent)
    ensures
        ev.encoded().len() == 3,
        DepthEvent::decoded(ev.encoded()) == ev,
{
    crate::bits::le_bytes_round_trip(ev.depth_raw);
}

/// The bytes of the entry `i` stand at three times its place.
proof fn lemma_entry_place(entries: Seq<DepthEvent>, i: int)
    requires
        0 <= i < entries.len(),
    ensures
        entries_bytes(entries).len() == 3 * entries.len(),
        entries_bytes(entries).subrange(3 * i, 3 * i + 3) == entries[i].encoded(),
    decreases entries.len(),
{
    let before = entries.drop_last();
    let bytes = entries_bytes(entries);
    if before.len() > 0 {
        let k = if i < before.len() {
            i
        } else {
            0
        };
        lemma_entry_place(before, k);
        assert(entries_bytes(before).len() == 3 * before.len());
    } else {
        assert(entries_bytes(before) =~= Seq::<u8>::empty());
    }
    if i < before.len() {
        assert(before[i] == entries[i]);
        assert(bytes.subrange(3 * i, 3 * i + 3) =~= entries_bytes(before).subrange(
            3 * i,
            3 * i + 3,
        ));
    } else {
        assert(bytes.subrange(3 * i, 3 * i + 3) =~= entries[i].encoded());
    }
}

/// A client reads from the stream what the server put on it, whatever follows: events,
/// errors, and snapshots of up to 255 keys.
pub proof fn frames_round_trip(
    entries: Seq<DepthEvent>,
    ev: DepthEvent,
    code: u8,
    rest: Seq<u8>,
)
    requires
        entries.len() <= 255,
    ensures
        frame_in(snapshot_frame(entries) + rest) == Some(
            (FrameView::Snapshot(entries), snapshot_frame(entries).len()),
        ),
        frame_in(event_frame(ev) + rest) == Some((FrameView::Event(ev), event_frame(ev).len())),
        frame_in(error_frame(code) + rest) == Some(
            (FrameView::Error(code), error_frame(code).len()),
        ),
{
    entry_round_trip(ev);
    assert((event_frame(ev) + rest).subrange(1, 4) =~= ev.encoded());
    let s = snapshot_frame(entries) + rest;
    let bytes = entries_bytes(entries);
    if entries.len() > 0 {
        lemma_entry_place(entries, 0);
    }
    assert(bytes.len() == 3 * entries.len());
    assert forall|i: int| 0 <= i < entries.len() implies #[trigger] entries_at(
        s,
        2,
        entries.len(),
    )[i] == entries[i] by {
        lemma_entry_place(entries, i);
        entry_round_trip(entries[i]);
        assert(s.subrange(2 + 3 * i, 2 + 3 * i + 3) =~= bytes.subrange(3 * i, 3 * i + 3));
    }
    assert(entries_at(s, 2, entries.len()) =~= entries);
}

/// A snapshot shows the latest report of every key.
pub proof fn snapshot_shows_the_latest(
    before: Map<u8, u16>,
    key: u8,
    depth: u16,
    entries: Seq<DepthEvent>,
)
    requires
        lists(entries, before.insert(key, depth)),
    ensures
        entries.contains(DepthEvent { key_index: key, depth_raw: depth }),
        forall|i: int|
            0 <= i < entries.len() && (#[trigger] entries[i]).key_index == key
                ==> entries[i].depth_raw == depth,
{
    assert(before.insert(key, depth).contains_key(key));
}

/// What the server does about a client's command.
#[derive(Debug, Clone, Copy, PartialEq, Eq, Structural)]
pub enum ClientAction {
    /// Answer the ping.
    Pong,
    /// Send a fresh snapshot.
    Snapshot,
    /// Close the connection.
    Close,
    /// Report a bad command.
    Reject,
}

/// What the server does about a command byte.
pub open spec fn reaction(byte: u8) -> ClientAction {
    if byte == PING {
        ClientAction::Pong
    } else if byte == QUERY {
        ClientAction::Snapshot
    } else if byte == CLOSE {
        ClientAction::Close
    } else {
        ClientAction::Reject
    }
}

/// What the server does about a batch of command bytes: one action per byte, up to and
/// with a close.
pub open spec fn reactions(bytes: Seq<u8>) -> Seq<ClientAction>
    decreases bytes.len(),
{
    if bytes.len() == 0 {
        Seq::empty()
    } else if bytes[0] == CLOSE {
        seq![ClientAction::Close]
    } else {
        seq![reaction(bytes[0])] + reactions(bytes.drop_first())
    }
}

/// What the server does about a command byte.
pub fn react(byte: u8) -> (r: ClientAction)
    ensures
        r == reaction(byte),
{
    if byte == PING {
        ClientAction::Pong
    } else if byte == QUERY {
        ClientAction::Snapshot
    } else if byte == CLOSE {
        ClientAction::Close
    } else {
        ClientAction::Reject
    }
}

/// What the server does about a batch of command bytes.
pub fn react_to_batch(bytes: &[u8]) -> (r: Vec<ClientAction>)
    ensures
        r@ == reactions(bytes@),
{
    let mut out: Vec<ClientAction> = Vec::new();
    let mut i: usize = 0;
    assert(bytes@.skip(0) =~= bytes@);
    assert(out@ + reactions(bytes@.skip(0)) =~= reactions(bytes@));
    while i < bytes.len()
        invariant
            i <= bytes@.len(),
            out@ + reactions(bytes@.skip(i as int)) == reactions(bytes@),
        decreases bytes@.len() - i,
    {
        let ghost before = out@;
        let ghost rest = bytes@.skip(i as int);
        assert(rest.drop_first() =~= bytes@.skip(i + 1));
        let action: ClientAction = react(bytes[i]);
        out.push(action);
        if bytes[i] == CLOSE {
            assert(out@ =~= before + reactions(rest));
            return out;
        }
        assert(out@ + reactions(bytes@.skip(i + 1)) =~= before + reactions(rest));
        i += 1;
    }
    assert(bytes@.skip(i as int) =~= Seq::<u8>::empty());
    assert(out@ + reactions(bytes@.skip(i as int)) =~= out@);
    out
}

/// The bytes that answer a command; none for a close, which ends the connection.
pub fn answer(action: ClientAction, cache: &DepthCache) -> (r: Option<Vec<u8>>)
    ensures
        match action {
            ClientAction::Pong => r matches Some(b) && b@ == seq![PONG],
            ClientAction::Snapshot => r matches Some(b) && exists|entries: Seq<DepthEvent>|
                lists(entries, cache@) && b@ == #[trigger] snapshot_frame(entries),
            ClientAction::Close => r is None,
            ClientAction::Reject => r matches Some(b) && b@ == error_frame(ERROR_BAD_COMMAND),
        },
{
    match action {
        ClientAction::Pong => {
            let b: Vec<u8> = vec![PONG];
            assert(b@ =~= seq![PONG]);
            Some(b)
        },
        ClientAction::Snapshot => Some(encode_snapshot(cache)),
        ClientAction::Close => None,
        ClientAction::Reject => Some(encode_error(ERROR_BAD_COMMAND)),
    }
}

/// What happens on the connection of a client.
pub enum ClientInput {
    /// A key moved.
    Depth(DepthEvent),
    /// The client is too slow; some events are lost.
    Lagged,
    /// The device has gone away: there will be no more events.
    ChannelClosed,
    /// The client has gone.
    Disconnected,
    /// The client sent commands.
    Bytes(Vec<u8>),
    ReadFailed(String),
    /// The server stops.
    Shutdown,
}

/// What the server does on the connection of a client.
pub enum ClientStep {
    Send(Vec<u8>),
    Ignore,
    /// Do these one after the other.
    Commands(Vec<ClientAction>),
    /// Send this, and end with this error.
    SendAndFail(Vec<u8>, String),
    End(Result<(), String>),
}

/// What the server does about what happens on the connection of a client.
pub fn serve_step(input: ClientInput) -> (r: ClientStep)
    ensures
        match input {
            ClientInput::Depth(ev) => r matches ClientStep::Send(b) && b@ == event_frame(ev),
            ClientInput::Lagged => r is Ignore,
            ClientInput::ChannelClosed => r matches ClientStep::SendAndFail(b, e) && b@
                == error_frame(ERROR_NO_DEVICE) && e@ == "event channel closed"@,
            ClientInput::Disconnected => r == ClientStep::End(Ok(())),
            ClientInput::Bytes(b) => r matches ClientStep::Commands(list) && list@ == reactions(
                b@,
            ),
            ClientInput::ReadFailed(e) => r matches ClientStep::End(Err(m)) && m@ == "read: "@
                + e@,
            ClientInput::Shutdown => r == ClientStep::End(Ok(())),
        },
{
    match input {
        ClientInput::Depth(ev) => ClientStep::Send(encode_event(ev)),
        ClientInput::Lagged => ClientStep::Ignore,
        ClientInput::ChannelClosed => ClientStep::SendAndFail(
            encode_error(ERROR_NO_DEVICE),
            "event channel closed".to_owned(),
        ),
        ClientInput::Disconnected => ClientStep::End(Ok(())),
        ClientInput::Bytes(b) => ClientStep::Commands(react_to_batch(b.as_slice())),
        ClientInput::ReadFailed(e) => {
            let mut m: String = "read: ".to_owned();
            m.append(e.as_str());
            ClientStep::End(Err(m))
        },
        ClientInput::Shutdown => ClientStep::End(Ok(())),
    }
}

/// Nothing that a client sends behind a close is answered, and everything before it is,
/// in order.
pub proof fn commands_are_answered_up_to_the_close(bytes: Seq<u8>, more: Seq<u8>, i: int)
    requires
        0 <= i < bytes.len(),
        bytes[i] == CLOSE,
        forall|k: int| 0 <= k < i ==> bytes[k] != CLOSE,
    ensures
        reactions(bytes).len() == i + 1,
        forall|k: int| 0 <= k <= i ==> reactions(bytes)[k] == reaction(bytes[k]),
        reactions(bytes + more) == reactions(bytes),
    decreases bytes.len(),
{
    let tail = bytes.drop_first();
    assert((bytes + more).drop_first() =~= tail + more);
    if i > 0 {
        assert(bytes[0] != CLOSE);
        assert forall|k: int| 0 <= k < i - 1 implies tail[k] != CLOSE by {
            assert(tail[k] == bytes[k + 1]);
        }
        commands_are_answered_up_to_the_close(tail, more, i - 1);
        assert forall|k: int| 0 <= k <= i implies reactions(bytes)[k] == reaction(bytes[k]) by {
            if k > 0 {
                assert(reactions(bytes)[k] == reactions(tail)[k - 1]);
                assert(tail[k - 1] == bytes[k]);
            }
        }
    }
}

/// How a device is attached.
#[derive(Debug, Clone, Copy, PartialEq, Eq, Structural)]
pub enum TransportType {
    HidWired,
    HidDongle,
    Bluetooth,
    WebRtc,
}

impl TransportType {
    /// The short name.
    pub open spec fn short_name(self) -> Seq<char> {
        match self {
            TransportType::HidWired => "usb"@,
            TransportType::HidDongle => "dongle"@,
            TransportType::Bluetooth => "bt"@,
            TransportType::WebRtc => "webrtc"@,
        }
    }
}

/// The short name of a transport.
pub fn transport_type_name(tt: TransportType) -> (r: &'static str)
    ensures
        r@ == tt.short_name(),
{
    match tt {
        TransportType::HidWired => "usb",
        TransportType::HidDongle => "dongle",
        TransportType::Bluetooth => "bt",
        TransportType::WebRtc => "webrtc",
    }
}

/// Whether a device can feed depths: it is wired or behind a dongle.
pub open spec fn is_candidate(tt: TransportType) -> bool {
    tt == TransportType::HidWired || tt == TransportType::HidDongle
}

/// Where the search for a depth device stands.
pub enum DepthSearch {
    /// Try to open this device next.
    Try(usize),
    /// This device was opened.
    Found(usize),
    /// None could be opened.
    Failed(String),
}

/// A [`DepthSearch`] with its message as characters.
pub enum SearchView {
    Try(nat),
    Found(nat),
    Failed(Seq<char>),
}

impl View for DepthSearch {
    type V = SearchView;

    open spec fn view(&self) -> SearchView {
        match *self {
            DepthSearch::Try(i) => SearchView::Try(i as nat),
            DepthSearch::Found(i) => SearchView::Found(i as nat),
            DepthSearch::Failed(e) => SearchView::Failed(e@),
        }
    }
}

/// The search from the device `i` on, with `tried` attempts behind it and the last error:
/// candidates are tried in order, and the first that opens is taken.
pub open spec fn depth_search(
    devices: Seq<TransportType>,
    attempts: Seq<Result<(), String>>,
    i: nat,
    tried: nat,
    last_error: Seq<char>,
) -> SearchView
    decreases devices.len() - i,
{
    if i >= devices.len() {
        SearchView::Failed("no magnetism-capable keyboard found: "@ + last_error)
    } else if !is_candidate(devices[i as int]) {
        depth_search(devices, attempts, i + 1, tried, last_error)
    } else if tried >= attempts.len() {
        SearchView::Try(i)
    } else {
        match attempts[tried as int] {
            Ok(()) => SearchView::Found(i),
            Err(e) => depth_search(devices, attempts, i + 1, tried + 1, e@),
        }
    }
}

/// Search for a device that can feed depths, given how the attempts so far went.
pub fn search_depth_device(devices: &[TransportType], attempts: &[Result<(), String>]) -> (r: DepthSearch)
    ensures
        r@ == depth_search(devices@, attempts@, 0, 0, "no candidate devices found"@),
{
    let mut last_error: String = "no candidate devices found".to_owned();
    let mut tried: usize = 0;
    let mut i: usize = 0;
    while i < devices.len()
        invariant
            i <= devices@.len(),
            tried <= attempts@.len(),
            depth_search(devices@, attempts@, 0, 0, "no candidate devices found"@)
                == depth_search(devices@, attempts@, i as nat, tried as nat, last_error@),
        decreases devices@.len() - i,
    {
        let candidate: bool = match devices[i] {
            TransportType::HidWired => true,
            TransportType::HidDongle => true,
            _ => false,
        };
        if candidate {
            if tried >= attempts.len() {
                return DepthSearch::Try(i);
            }
            match &attempts[tried] {
                Ok(()) => {
                    return DepthSearch::Found(i);
                },
                Err(e) => {
                    last_error = e.clone();
                },
            }
            tried += 1;
        }
        i += 1;
    }
    let mut e: String = "no magnetism-capable keyboard found: ".to_owned();
    e.append(last_error.as_str());
    DepthSearch::Failed(e)
}

/// Whether a device that was opened can feed depths.
pub fn depth_support(has_magnetism: bool) -> (r: Result<(), String>)
    ensures
        has_magnetism ==> r is Ok,
        !has_magnetism ==> (r matches Err(e) && e@ == "device has no magnetism support"@),
{
    if has_magnetism {
        Ok(())
    } else {
        Err("device has no magnetism support".to_owned())
    }
}

} // verus!
