//! What the key depth feed and patched firmware promise.

use crate::depth::{
    answer, decode_frame, depth_search, depth_support, encode_entries, encode_error, encode_event,
    encode_snapshot, entries_bytes, entry_round_trip, frames_round_trip, is_candidate, lists,
    react, react_to_batch, reaction, reactions, search_depth_device, serve_step, snapshot_frame,
    transport_type_name, ClientAction, ClientInput, ClientStep, DepthCache, DepthEvent, DepthFrame,
    DepthSearch, SearchView, SockError, TransportType,
};
use crate::error::KeyboardError;
use crate::exchange::{reply_view, seen, Reply, Step, StepView};
use crate::keyboard::KeyboardInterface;
use crate::laws::board::{asked_for, goes_through, lemma_sent_run};
use crate::laws::settings::{lemma_outcome, outcome};
use crate::patches::{
    anim_assign_writes, anim_define_writes, first_zero, known_slots, name_bytes, patch_fields,
    AnimDefStatus, AnimReply, AnimReport, AnimSlot, AnimStatus, PatchInfo,
};
use crate::protocol::{DefId, LedPos, RequestView, StripIdx};
use crate::text::dec;
use vstd::prelude::*;

verus! {

/// An event that the server sends is the event that a client reads, whatever follows.
pub proof fn events_are_read_as_sent(
    ev: DepthEvent,
    sent: Vec<u8>,
    rest: Seq<u8>,
    stream: &[u8],
    r: Option<(DepthFrame, usize)>,
)
    requires
        call_ensures(encode_event, (ev,), sent),
        stream@ == sent@ + rest,
        call_ensures(decode_frame, (stream,), r),
    ensures
        r == Some((DepthFrame::Event(ev), 4usize)),
        sent@.len() == 4,
        sent@[0] == 'D' as u8,
        sent@[1] == ev.key_index,
        sent@[2] + 256 * sent@[3] == ev.depth_raw,
{
    frames_round_trip(Seq::empty(), ev, 0, rest);
    entry_round_trip(ev);
}

/// An error that the server sends is the error that a client reads, whatever follows.
pub proof fn errors_are_read_as_sent(
    code: u8,
    sent: Vec<u8>,
    rest: Seq<u8>,
    stream: &[u8],
    r: Option<(DepthFrame, usize)>,
)
    requires
        call_ensures(encode_error, (code,), sent),
        stream@ == sent@ + rest,
        call_ensures(decode_frame, (stream,), r),
    ensures
        r == Some((DepthFrame::Error(code), 2usize)),
        sent@ == seq!['E' as u8, code],
{
    frames_round_trip(
        Seq::empty(),
        DepthEvent { key_index: 0, depth_raw: 0 },
        code,
        rest,
    );
}

/// A snapshot that the server sends is the list of entries that a client reads, in their
/// order, whatever follows.
pub proof fn snapshots_are_read_as_sent(
    entries: &[DepthEvent],
    sent: Vec<u8>,
    rest: Seq<u8>,
    stream: &[u8],
    r: Option<(DepthFrame, usize)>,
)
    requires
        entries@.len() <= 255,
        call_ensures(encode_entries, (entries,), sent),
        stream@ == sent@ + rest,
        call_ensures(decode_frame, (stream,), r),
    ensures
        r is Some,
        ({
            let (frame, used) = r->0;
            &&& frame is Snapshot
            &&& frame->Snapshot_0@ == entries@
            &&& used == sent@.len()
        }),
        sent@[0] == 'S' as u8,
        sent@[1] == entries@.len(),
{
    frames_round_trip(
        entries@,
        DepthEvent { key_index: 0, depth_raw: 0 },
        0,
        rest,
    );
}

/// A frame that has not arrived whole is waited for; nothing else is.
pub proof fn partial_frames_are_waited_for(
    ev: DepthEvent,
    entries: &[DepthEvent],
    a: Vec<u8>,
    b: Vec<u8>,
    part: &[u8],
    r: Option<(DepthFrame, usize)>,
)
    requires
        entries@.len() <= 255,
        call_ensures(encode_event, (ev,), a),
        call_ensures(encode_entries, (entries,), b),
        call_ensures(decode_frame, (part,), r),
    ensures
        part@.len() < a@.len() && part@ == a@.take(part@.len() as int) ==> r is None,
        part@.len() < b@.len() && part@ == b@.take(part@.len() as int) ==> r is None,
{
    entry_round_trip(ev);
    lemma_bytes_len(entries@);
    assert(b@.len() == 2 + 3 * entries@.len());
    if 0 < part@.len() < b@.len() && part@ == b@.take(part@.len() as int) {
        assert(part@[0] == b@[0]);
        if part@.len() > 1 {
            assert(part@[1] == b@[1]);
        }
    }
    if 0 < part@.len() < a@.len() && part@ == a@.take(part@.len() as int) {
        assert(part@[0] == a@[0]);
    }
}

/// Every entry takes three bytes.
proof fn lemma_bytes_len(entries: Seq<DepthEvent>)
    ensures
        entries_bytes(entries).len() == 3 * entries.len(),
    decreases entries.len(),
{
    if entries.len() > 0 {
        lemma_bytes_len(entries.drop_last());
        entry_round_trip(entries.last());
    }
}

/// A snapshot of what was reported holds each key once, with its latest depth, and no key
/// that was never reported.
pub proof fn snapshots_show_the_latest_reports(
    empty: DepthCache,
    cache: &mut DepthCache,
    key: u8,
    depth: u16,
    other: u8,
    after: DepthCache,
    before: Vec<DepthEvent>,
    r: Vec<DepthEvent>,
    none: Vec<DepthEvent>,
)
    requires
        other != key,
        call_ensures(DepthCache::new, (), empty),
        call_ensures(DepthCache::snapshot, (&empty,), none),
        call_ensures(DepthCache::snapshot, (old(cache),), before),
        call_ensures(DepthCache::update, (cache, key, depth), ()),
        after == *final(cache),
        call_ensures(DepthCache::snapshot, (&after,), r),
    ensures
        none@.len() == 0,
        r@.contains(DepthEvent { key_index: key, depth_raw: depth }),
        forall|i: int, j: int|
            0 <= i < j < r@.len() ==> (#[trigger] r@[i]).key_index != (
            #[trigger] r@[j]).key_index,
        forall|d: u16|
            #![trigger r@.contains(DepthEvent { key_index: other, depth_raw: d })]
            r@.contains(DepthEvent { key_index: other, depth_raw: d }) == before@.contains(
                DepthEvent { key_index: other, depth_raw: d },
            ),
{
    if none@.len() > 0 {
        assert(empty@.contains_key(none@[0].key_index));
    }
    assert(after@.contains_key(key));
    assert forall|d: u16|
        #![trigger r@.contains(DepthEvent { key_index: other, depth_raw: d })]
        r@.contains(DepthEvent { key_index: other, depth_raw: d }) == before@.contains(
            DepthEvent { key_index: other, depth_raw: d },
        ) by {
        let e = DepthEvent { key_index: other, depth_raw: d };
        if r@.contains(e) {
            let i = choose|i: int| 0 <= i < r@.len() && r@[i] == e;
            assert(after@.contains_key(r@[i].key_index));
            assert(old(cache)@.contains_key(other));
            assert(old(cache)@[other] == d);
        }
        if before@.contains(e) {
            let i = choose|i: int| 0 <= i < before@.len() && before@[i] == e;
            assert(old(cache)@.contains_key(before@[i].key_index));
            assert(after@.contains_key(other));
            assert(after@[other] == d);
        }
    }
}

/// A snapshot frame tells how many keys it holds, and carries three bytes for each.
pub proof fn snapshot_frames_count_their_keys(cache: &DepthCache, n: nat, r: Vec<u8>)
    requires
        call_ensures(encode_snapshot, (cache,), r),
        cache@.dom().finite(),
    ensures
        r@.len() >= 2,
        r@[0] == 'S' as u8,
        (r@.len() - 2) % 3 == 0,
        r@[1] == (r@.len() - 2) / 3 % 256,
{
    let entries = choose|entries: Seq<DepthEvent>| #[trigger]
        lists(entries, cache@) && r@ == snapshot_frame(entries);
    lemma_bytes_len(entries);
}

/// An error code means one error, and a code that is none is refused.
pub proof fn error_codes_are_told_apart(code: u8, r: Result<SockError, String>)
    requires
        call_ensures(SockError::from_code, (code,), r),
    ensures
        r == Ok::<SockError, String>(SockError::BadCommand) <==> code == 1,
        r == Ok::<SockError, String>(SockError::NoDevice) <==> code == 2,
        r is Err <==> code != 1 && code != 2,
        r is Err ==> r->Err_0@ == "unknown error code `"@ + dec(code as nat) + "`"@,
{
}

/// A ping is answered, a query gets a snapshot, a close ends the connection, and anything
/// else is reported as a bad command.
pub proof fn commands_are_answered(byte: u8, cache: &DepthCache, a: ClientAction, r:
    Option<Vec<u8>>)
    requires
        call_ensures(react, (byte,), a),
        call_ensures(answer, (a, cache), r),
    ensures
        byte == 'P' as u8 ==> r is Some && r->0@ == seq!['O' as u8],
        byte == 'Q' as u8 ==> r is Some && r->0@.len() >= 2 && r->0@[0] == 'S' as u8,
        r is None <==> byte == 'X' as u8,
        byte != 'P' as u8 && byte != 'Q' as u8 && byte != 'X' as u8 ==> r is Some && r->0@ == seq![
            'E' as u8,
            1u8,
        ],
{
}

/// Each command byte is reacted to in order, up to a close.
pub proof fn batches_are_worked_off_in_order(
    bytes: &[u8],
    r: Vec<ClientAction>,
    i: int,
    one: ClientAction,
)
    requires
        call_ensures(react_to_batch, (bytes,), r),
        0 <= i < bytes@.len(),
        call_ensures(react, (bytes@[i],), one),
        forall|k: int| 0 <= k < i ==> #[trigger] bytes@[k] != 'X' as u8,
    ensures
        i < r@.len(),
        r@[i] == one,
        bytes@[i] == 'X' as u8 ==> r@.len() == i + 1 && r@[i] == ClientAction::Close,
        (forall|k: int| 0 <= k < bytes@.len() ==> #[trigger] bytes@[k] != 'X' as u8) ==> r@.len()
            == bytes@.len(),
{
    lemma_reactions(bytes@, i);
}

/// What is done about the byte at a place before any close.
proof fn lemma_reactions(b: Seq<u8>, i: int)
    requires
        0 <= i < b.len(),
        forall|k: int| 0 <= k < i ==> #[trigger] b[k] != 0x58,
    ensures
        i < reactions(b).len(),
        reactions(b)[i] == reaction(b[i]),
        b[i] == 0x58 ==> reactions(b).len() == i + 1,
        (forall|k: int| 0 <= k < b.len() ==> #[trigger] b[k] != 0x58) ==> reactions(b).len()
            == b.len(),
    decreases b.len(),
{
    let rest = b.drop_first();
    if i > 0 {
        assert(b[0] != 0x58);
        assert forall|k: int| 0 <= k < i - 1 implies #[trigger] rest[k] != 0x58 by {
            assert(rest[k] == b[k + 1]);
        }
        lemma_reactions(rest, i - 1);
        assert(rest[i - 1] == b[i]);
        if forall|k: int| 0 <= k < b.len() ==> #[trigger] b[k] != 0x58 {
            assert forall|k: int| 0 <= k < rest.len() implies #[trigger] rest[k] != 0x58 by {
                assert(rest[k] == b[k + 1]);
            }
        }
    } else if forall|k: int| 0 <= k < b.len() ==> #[trigger] b[k] != 0x58 {
        assert(b[0] != 0x58);
        if rest.len() > 0 {
            assert forall|k: int| 0 <= k < rest.len() implies #[trigger] rest[k] != 0x58 by {
                assert(rest[k] == b[k + 1]);
            }
            lemma_reactions(rest, 0);
        } else {
            reveal_with_fuel(reactions, 2);
        }
    }
}

/// A client is sent every event, is told when the device goes away, and is done with when
/// it leaves or the server stops. A slow client stays.
pub proof fn clients_are_served(
    ev: DepthEvent,
    sent: Vec<u8>,
    gone: Vec<u8>,
    bytes: Vec<u8>,
    list: Vec<ClientAction>,
    message: String,
    moved: ClientStep,
    lagged: ClientStep,
    closed: ClientStep,
    left: ClientStep,
    asked: ClientStep,
    failed: ClientStep,
    stopped: ClientStep,
)
    requires
        call_ensures(encode_event, (ev,), sent),
        call_ensures(encode_error, (2,), gone),
        call_ensures(serve_step, (ClientInput::Depth(ev),), moved),
        call_ensures(serve_step, (ClientInput::Lagged,), lagged),
        call_ensures(serve_step, (ClientInput::ChannelClosed,), closed),
        call_ensures(serve_step, (ClientInput::Disconnected,), left),
        call_ensures(serve_step, (ClientInput::Bytes(bytes),), asked),
        call_ensures(serve_step, (ClientInput::ReadFailed(message),), failed),
        call_ensures(serve_step, (ClientInput::Shutdown,), stopped),
        list@ == reactions(bytes@),
    ensures
        moved is Send && moved->Send_0@ == sent@,
        lagged is Ignore,
        closed is SendAndFail && closed->SendAndFail_0@ == gone@,
        left == ClientStep::End(Ok(())),
        asked is Commands && asked->Commands_0@ == list@,
        failed is End && failed->End_0 is Err,
        failed->End_0->Err_0@ == "read: "@ + message@,
        stopped == ClientStep::End(Ok(())),
{
}

/// The names of the transports.
pub proof fn transports_are_named(tt: TransportType, r: &str)
    requires
        call_ensures(transport_type_name, (tt,), r),
    ensures
        r@ == "usb"@ <==> tt == TransportType::HidWired,
        r@ == "dongle"@ <==> tt == TransportType::HidDongle,
        r@ == "bt"@ <==> tt == TransportType::Bluetooth,
        r@ == "webrtc"@ <==> tt == TransportType::WebRtc,
{
    reveal_strlit("usb");
    reveal_strlit("dongle");
    reveal_strlit("bt");
    reveal_strlit("webrtc");
    assert("usb"@.len() == 3 && "bt"@.len() == 2);
    assert("dongle"@[0] == 'd' && "webrtc"@[0] == 'w');
    assert("dongle"@.len() == 6 && "webrtc"@.len() == 6);
}

/// How many devices among the first `n` can feed depths.
pub open spec fn candidates(devices: Seq<TransportType>, n: int) -> nat
    decreases n,
{
    if n <= 0 {
        0
    } else {
        candidates(devices, n - 1) + (if devices[n - 1] == TransportType::HidWired || devices[n - 1]
            == TransportType::HidDongle {
            1nat
        } else {
            0nat
        })
    }
}

/// Where a search from a device on ends up.
proof fn lemma_search(
    devices: Seq<TransportType>,
    attempts: Seq<Result<(), String>>,
    i: nat,
    tried: nat,
    e: Seq<char>,
)
    requires
        i <= devices.len(),
        tried == candidates(devices, i as int),
        tried <= attempts.len(),
        forall|k: int| 0 <= k < tried ==> (#[trigger] attempts[k]) is Err,
        tried > 0 ==> e == attempts[tried - 1]->Err_0@,
    ensures
        match depth_search(devices, attempts, i, tried, e) {
            SearchView::Try(at) => i <= at < devices.len() && is_candidate(devices[at as int])
                && candidates(devices, at as int) == attempts.len() && forall|k: int|
                0 <= k < attempts.len() ==> (#[trigger] attempts[k]) is Err,
            SearchView::Found(at) => i <= at < devices.len() && is_candidate(devices[at as int])
                && candidates(devices, at as int) < attempts.len() && attempts[candidates(
                devices,
                at as int,
            ) as int] is Ok && forall|k: int|
                0 <= k < candidates(devices, at as int) ==> (#[trigger] attempts[k]) is Err,
            SearchView::Failed(m) => {
                let n = candidates(devices, devices.len() as int);
                &&& tried <= n <= attempts.len()
                &&& forall|k: int| 0 <= k < n ==> (#[trigger] attempts[k]) is Err
                &&& n > 0 ==> m == "no magnetism-capable keyboard found: "@ + attempts[n
                    - 1]->Err_0@
                &&& n == 0 ==> m == "no magnetism-capable keyboard found: "@ + e
            },
        },
    decreases devices.len() - i,
{
    if i < devices.len() {
        if !is_candidate(devices[i as int]) {
            lemma_search(devices, attempts, i + 1, tried, e);
        } else if tried < attempts.len() && attempts[tried as int] is Err {
            lemma_search(devices, attempts, i + 1, tried + 1, attempts[tried as int]->Err_0@);
        }
    }
}

/// Devices on a cable or behind a receiver are tried in order until one opens; if none
/// does, the last reason is told.
pub proof fn depth_devices_are_tried_in_order(
    devices: &[TransportType],
    attempts: &[Result<(), String>],
    r: DepthSearch,
)
    requires
        call_ensures(search_depth_device, (devices, attempts), r),
    ensures
        r is Try ==> r->Try_0 < devices@.len() && candidates(devices@, r->Try_0 as int)
            == attempts@.len() && (devices@[r->Try_0 as int] == TransportType::HidWired
            || devices@[r->Try_0 as int] == TransportType::HidDongle) && (forall|k: int|
            0 <= k < attempts@.len() ==> (#[trigger] attempts@[k]) is Err),
        r is Found ==> r->Found_0 < devices@.len() && candidates(devices@, r->Found_0 as int)
            < attempts@.len() && attempts@[candidates(
            devices@,
            r->Found_0 as int,
        ) as int] is Ok && (devices@[r->Found_0 as int] == TransportType::HidWired
            || devices@[r->Found_0 as int] == TransportType::HidDongle),
        r is Failed ==> candidates(devices@, devices@.len() as int) <= attempts@.len(),
        r is Failed && candidates(devices@, devices@.len() as int) > 0 ==> r->Failed_0@
            == "no magnetism-capable keyboard found: "@ + attempts@[candidates(
            devices@,
            devices@.len() as int,
        ) - 1]->Err_0@,
        r is Failed && candidates(devices@, devices@.len() as int) == 0 ==> r->Failed_0@
            == "no magnetism-capable keyboard found: "@ + "no candidate devices found"@,
{
    lemma_search(devices@, attempts@, 0, 0, "no candidate devices found"@);
}

/// Only a device with magnetic switches can feed depths.
pub proof fn depths_need_magnetic_switches(magnetic: bool, r: Result<(), String>)
    requires
        call_ensures(depth_support, (magnetic,), r),
    ensures
        r is Ok <==> magnetic,
        r is Err ==> r->Err_0@ == "device has no magnetism support"@,
{
}

/// A patch is told by its mark, and tells version, capabilities and name; stock firmware
/// tells none.
pub proof fn patches_are_told_by_their_mark(
    d: &[u8],
    r: Option<(u8, u16, Vec<u8>)>,
)
    requires
        call_ensures(patch_fields, (d,), r),
    ensures
        r is Some <==> d@.len() >= 8 && d@[1] == 0xCA && d@[2] == 0xFE,
        r is Some ==> ({
            let (version, caps, name) = r->0;
            &&& version == d@[3]
            &&& caps == d@[4] + 256 * d@[5]
            &&& name@.len() <= 8
            &&& 6 + name@.len() <= d@.len()
            &&& forall|i: int|
                0 <= i < name@.len() ==> #[trigger] name@[i] == d@[6 + i] && name@[i] != 0
            &&& name@.len() < 8 && 6 + name@.len() < d@.len() ==> d@[6 + name@.len() as int] == 0
        }),
{
    if r is Some {
        let end = if d@.len() < 14 {
            d@.len() as int
        } else {
            14
        };
        let field = d@.subrange(6, end);
        lemma_first_zero(field);
        assert(name_bytes(d@) == field.take(first_zero(field)));
    }
}

/// There is no zero before the first one.
proof fn lemma_first_zero(s: Seq<u8>)
    ensures
        0 <= first_zero(s) <= s.len(),
        forall|i: int| 0 <= i < first_zero(s) ==> #[trigger] s[i] != 0,
        first_zero(s) < s.len() ==> s[first_zero(s)] == 0,
    decreases s.len(),
{
    if s.len() > 0 && s[0] != 0 {
        let rest = s.drop_first();
        lemma_first_zero(rest);
        assert forall|i: int| 0 <= i < first_zero(s) implies #[trigger] s[i] != 0 by {
            if i > 0 {
                assert(rest[i - 1] == s[i]);
            }
        }
    }
}

/// Of the capabilities, the second bit stands for streamed colors and the seventh for
/// animations.
pub proof fn capabilities_are_bits(p: &PatchInfo, stream: bool, anim: bool)
    requires
        call_ensures(PatchInfo::has_led_stream, (p,), stream),
        call_ensures(PatchInfo::has_anim_engine, (p,), anim),
    ensures
        stream <==> p.capabilities / 2 % 2 == 1,
        anim <==> p.capabilities / 64 % 2 == 1,
{
}

/// Of an animation's flags, the first bit stands for running once and the third for
/// cycling colors.
pub proof fn animation_flags_are_bits(s: &AnimDefStatus, once: bool, rainbow: bool)
    requires
        call_ensures(AnimDefStatus::is_one_shot, (s,), once),
        call_ensures(AnimDefStatus::is_rainbow, (s,), rainbow),
    ensures
        once <==> s.flags % 2 == 1,
        rainbow <==> s.flags / 4 % 2 == 1,
{
}

/// A patch answer is asked for and told on, an answer that is no patch as none.
pub proof fn the_patch_is_asked_for(
    kb: &KeyboardInterface,
    none: &[Reply],
    one: &[Reply],
    asks: Step<Option<PatchInfo>>,
    r: Step<Option<PatchInfo>>,
    fields: Option<(u8, u16, Vec<u8>)>,
    d: &[u8],
)
    requires
        none@.len() == 0,
        one@.len() == 1,
        one@[0] is Ok,
        one@[0]->Ok_0@ == d@,
        call_ensures(patch_fields, (d,), fields),
        call_ensures(KeyboardInterface::get_patch_info, (kb, none), asks),
        call_ensures(KeyboardInterface::get_patch_info, (kb, one), r),
    ensures
        asks@ matches StepView::Ask(RequestView::Raw(f)) && f.cmd == kb.commands.get_patch_info
            && f.data.len() == 0,
        r matches Step::Done(Ok(p)) && (p is Some <==> fields is Some) && (p matches Some(info)
            ==> {
            let (version, caps, _) = fields->0;
            info.version == version && info.capabilities == caps
        }),
{
    assert(seen(one@)[0] == reply_view(one@[0]));
}

/// A receiver's patch is asked for and told on; a link without a receiver has none.
pub proof fn the_receivers_patch_is_asked_for(
    kb: &KeyboardInterface,
    d: Vec<u8>,
    e: KeyboardError,
    asks: Step<Option<PatchInfo>>,
    absent: Step<Option<PatchInfo>>,
    failed: Step<Option<PatchInfo>>,
    r: Step<Option<PatchInfo>>,
    fields: Option<(u8, u16, Vec<u8>)>,
    bytes: &[u8],
)
    requires
        bytes@ == d@,
        call_ensures(patch_fields, (bytes,), fields),
        call_ensures(KeyboardInterface::get_dongle_patch_info, (kb, None), asks),
        call_ensures(KeyboardInterface::get_dongle_patch_info, (kb, Some(Ok(None))), absent),
        call_ensures(KeyboardInterface::get_dongle_patch_info, (kb, Some(Err(e))), failed),
        call_ensures(KeyboardInterface::get_dongle_patch_info, (kb, Some(Ok(Some(d)))), r),
    ensures
        asks@ matches StepView::Ask(RequestView::DonglePatchInfo),
        absent@ == StepView::<Option<PatchInfo>>::Done(Ok(None)),
        failed@ == StepView::<Option<PatchInfo>>::Done(Err(e@)),
        r matches Step::Done(Ok(p)) && (p is Some <==> fields is Some) && (p matches Some(info)
            ==> {
            let (version, caps, _) = fields->0;
            info.version == version && info.capabilities == caps
        }),
{
}

/// The request at a place of a run.
pub open spec fn asked_at(steps: Seq<Step<()>>, i: int) -> RequestView {
    asked_for(steps)[i]
}

/// Defining an animation sends its keyframes under its slot, eight at most, in a second
/// request those behind the fourth.
pub proof fn an_animation_is_defined_whole(
    kb: &KeyboardInterface,
    def_id: DefId,
    flags: u8,
    priority: i8,
    ticks: u16,
    keyframes: &[(u16, u16, u8)],
    given: Seq<&[Reply]>,
    replies: Seq<Reply>,
    steps: Seq<Step<()>>,
)
    requires
        given.len() == steps.len(),
        goes_through(steps, replies),
        forall|m: int| 0 <= m < steps.len() ==> (#[trigger] given[m])@ == replies.take(m),
        forall|m: int|
            0 <= m < steps.len() ==> call_ensures(
                KeyboardInterface::anim_define,
                (kb, def_id, flags, priority, ticks, keyframes, #[trigger] given[m]),
                steps[m],
            ),
    ensures
        steps.last()@ == StepView::<()>::Done(Ok(())),
        asked_for(steps).len() == (if keyframes@.len() > 4 {
            2int
        } else {
            1
        }),
        asked_at(steps, 0) matches RequestView::AnimDefine {
            def_id: id,
            num_kf,
            flags: f,
            priority: p,
            duration_ticks,
            keyframes: k,
        } && id == def_id && f == flags && p == priority && duration_ticks == ticks && k
            == keyframes@ && num_kf == (if keyframes@.len() < 8 {
            keyframes@.len() as int
        } else {
            8
        }),
        keyframes@.len() > 4 ==> (asked_at(steps, 1) matches RequestView::AnimDefineExt {
            def_id: id,
            keyframes: k,
        } && id == def_id && k.len() <= 4 && forall|i: int|
            0 <= i < k.len() ==> #[trigger] k[i] == keyframes@[4 + i]),
        keyframes@.len() >= 8 ==> (asked_at(steps, 1) matches RequestView::AnimDefineExt {
            keyframes: k,
            ..
        } && k.len() == 4),
{
    let list = anim_define_writes(def_id, flags, priority, ticks, keyframes@);
    assert forall|m: int| 0 <= m < steps.len() implies (#[trigger] steps[m])@
        == crate::exchange::sent(seen(replies.take(m)), list) by {
        assert(given[m]@ == replies.take(m));
    }
    lemma_sent_run(list, steps, replies);
}

/// Assigning keys to an animation sends each of them once, in order, under its slot.
pub proof fn every_key_is_assigned(
    kb: &KeyboardInterface,
    def_id: DefId,
    keys: &[(LedPos, u8)],
    given: Seq<&[Reply]>,
    replies: Seq<Reply>,
    steps: Seq<Step<()>>,
    i: int,
)
    requires
        given.len() == steps.len(),
        goes_through(steps, replies),
        forall|m: int| 0 <= m < steps.len() ==> (#[trigger] given[m])@ == replies.take(m),
        forall|m: int|
            0 <= m < steps.len() ==> call_ensures(
                KeyboardInterface::anim_assign,
                (kb, def_id, keys, #[trigger] given[m]),
                steps[m],
            ),
        0 <= i < keys@.len(),
    ensures
        steps.last()@ == StepView::<()>::Done(Ok(())),
        asked_for(steps).len() == (keys@.len() + 28) / 29,
        asked_at(steps, i / 29) matches RequestView::AnimAssign { def_id: id, keys: part } && id
            == def_id && i % 29 < part.len() && part.len() <= 29 && part[i % 29].0
            == keys@[i].0.pos && part[i % 29].1 == keys@[i].1,
{
    let list = anim_assign_writes(def_id, keys@);
    assert forall|m: int| 0 <= m < steps.len() implies (#[trigger] steps[m])@
        == crate::exchange::sent(seen(replies.take(m)), list) by {
        assert(given[m]@ == replies.take(m));
    }
    lemma_sent_run(list, steps, replies);
    crate::patches::all_keys_are_assigned(def_id, keys@, i);
}

/// Cancelling ends one animation, clearing all of them.
pub proof fn animations_are_ended(
    kb: &KeyboardInterface,
    def_id: DefId,
    none: &[Reply],
    one: &[Reply],
    cancel: Step<()>,
    cancelled: Step<()>,
    clear: Step<()>,
    cleared: Step<()>,
)
    requires
        none@.len() == 0,
        one@.len() == 1,
        call_ensures(KeyboardInterface::anim_cancel, (kb, def_id, none), cancel),
        call_ensures(KeyboardInterface::anim_cancel, (kb, def_id, one), cancelled),
        call_ensures(KeyboardInterface::anim_clear, (kb, none), clear),
        call_ensures(KeyboardInterface::anim_clear, (kb, one), cleared),
    ensures
        cancel@ matches StepView::Ask(RequestView::AnimCancel { def_id: id }) && id == def_id,
        clear@ matches StepView::Ask(RequestView::AnimClear),
        cancelled@ == outcome(one@[0]),
        cleared@ == outcome(one@[0]),
{
    lemma_outcome(one@);
}

/// The state of the animations is told as the firmware reports it, slot by slot; a slot
/// that does not exist is left out.
pub proof fn animations_are_told_as_reported(
    kb: &KeyboardInterface,
    report: AnimReport,
    e: KeyboardError,
    asks: Step<Option<AnimStatus>>,
    absent: Step<Option<AnimStatus>>,
    failed: Step<Option<AnimStatus>>,
    r: Step<Option<AnimStatus>>,
)
    requires
        forall|i: int| 0 <= i < report.defs@.len() ==> (#[trigger] report.defs@[i]).id < 8,
        call_ensures(KeyboardInterface::anim_query, (kb, None), asks),
        call_ensures(KeyboardInterface::anim_query, (kb, Some(AnimReply::Invalid)), absent),
        call_ensures(KeyboardInterface::anim_query, (kb, Some(AnimReply::Failed(e))), failed),
        call_ensures(KeyboardInterface::anim_query, (kb, Some(AnimReply::Report(report))), r),
    ensures
        asks@ matches StepView::Ask(RequestView::AnimQuery),
        absent@ == StepView::<Option<AnimStatus>>::Done(Ok(None)),
        failed@ == StepView::<Option<AnimStatus>>::Done(Err(e@)),
        r matches Step::Done(Ok(Some(s))) && s.active_count == report.active_count && s.frame_count
            == report.frame_count && s.overlay_active == report.overlay_active && s.defs@.len()
            == report.defs@.len() && forall|i: int|
            0 <= i < s.defs@.len() ==> {
                let (a, b) = (#[trigger] s.defs@[i], report.defs@[i]);
                a.id.number() == b.id && a.num_kf == b.num_kf && a.flags == b.flags && a.priority
                    == b.priority && a.key_count == b.key_count && a.duration_ticks
                    == b.duration_ticks
            },
{
    lemma_known(report.defs@);
}

/// If every slot exists, none is left out.
proof fn lemma_known(defs: Seq<AnimSlot>)
    requires
        forall|i: int| 0 <= i < defs.len() ==> (#[trigger] defs[i]).id < 8,
    ensures
        known_slots(defs) == defs,
    decreases defs.len(),
{
    if defs.len() > 0 {
        let before = defs.drop_last();
        assert forall|i: int| 0 <= i < before.len() implies (#[trigger] before[i]).id < 8 by {
            assert(before[i] == defs[i]);
        }
        lemma_known(before);
        assert(defs.last().id < 8);
        assert(before.push(defs.last()) =~= defs);
    } else {
        assert(known_slots(defs) =~= defs);
    }
}

/// A slot that does not exist is never told of.
pub proof fn unknown_slots_are_left_out(
    kb: &KeyboardInterface,
    report: AnimReport,
    r: Step<Option<AnimStatus>>,
)
    requires
        call_ensures(KeyboardInterface::anim_query, (kb, Some(AnimReply::Report(report))), r),
    ensures
        r matches Step::Done(Ok(Some(s))) && s.defs@.len() <= report.defs@.len() && forall|i: int|
            0 <= i < s.defs@.len() ==> (#[trigger] s.defs@[i]).id.number() < 8,
{
    lemma_some_known(report.defs@);
}

/// Every slot that is kept exists.
proof fn lemma_some_known(defs: Seq<AnimSlot>)
    ensures
        known_slots(defs).len() <= defs.len(),
        forall|i: int| 0 <= i < known_slots(defs).len()
            ==> (#[trigger] known_slots(defs)[i]).id < 8,
    decreases defs.len(),
{
    if defs.len() > 0 {
        lemma_some_known(defs.drop_last());
    }
}

/// The keys of an animation are told in the order of the answer, each with its phase; a
/// query that fails tells none.
pub proof fn animated_keys_are_told(
    kb: &KeyboardInterface,
    def_id: DefId,
    keys: Vec<(u8, u8)>,
    e: KeyboardError,
    asks: Step<Vec<(StripIdx, u8)>>,
    failed: Step<Vec<(StripIdx, u8)>>,
    r: Step<Vec<(StripIdx, u8)>>,
)
    requires
        call_ensures(KeyboardInterface::anim_query_keys, (kb, def_id, None), asks),
        call_ensures(KeyboardInterface::anim_query_keys, (kb, def_id, Some(Err(e))), failed),
        call_ensures(KeyboardInterface::anim_query_keys, (kb, def_id, Some(Ok(keys))), r),
    ensures
        asks@ matches StepView::Ask(RequestView::AnimQueryKeys { def_id: id }) && id == def_id,
        failed matches Step::Done(Ok(v)) && v@.len() == 0,
        r matches Step::Done(Ok(v)) && v@.len() == keys@.len() && forall|i: int|
            0 <= i < v@.len() ==> (#[trigger] v@[i]).0.idx == keys@[i].0 && v@[i].1 == keys@[i].1,
{
}

} // verus!
