//! What macros promise.

use crate::exchange::{seen, sent, Reply, Step, StepView};
use crate::keyboard::KeyboardInterface;
use crate::laws::board::{asked_for, goes_through, lemma_sent_run};
use crate::macros::{
    encode_macro, event_bytes, events_bytes, lemma_events_bytes_first, macro_data, macro_pages,
    parse_macro_events, stored_macro_parses, stroke_events, text_macro_events, typing_events,
    MacroEvent, Stroke,
};
use crate::protocol::{MacroSlot, RequestView};
use vstd::prelude::*;

verus! {

/// Whether left shift is down once events were played.
pub open spec fn shift_is_down(events: Seq<MacroEvent>) -> bool
    decreases events.len(),
{
    if events.len() == 0 {
        false
    } else if events.last().keycode == 0xE1 {
        events.last().is_down
    } else {
        shift_is_down(events.drop_last())
    }
}

/// The keys that playing events presses, in order, each with whether shift is down then.
/// Shift itself is left out.
pub open spec fn typed(events: Seq<MacroEvent>) -> Seq<(u8, bool)>
    decreases events.len(),
{
    if events.len() == 0 {
        Seq::empty()
    } else {
        let before = typed(events.drop_last());
        if events.last().is_down && events.last().keycode != 0xE1 {
            before.push((events.last().keycode, shift_is_down(events.drop_last())))
        } else {
            before
        }
    }
}

/// The strokes that have a key, in order.
pub open spec fn strokes_with_keys(strokes: Seq<Stroke>) -> Seq<(u8, bool)>
    decreases strokes.len(),
{
    if strokes.len() == 0 {
        Seq::empty()
    } else {
        match strokes.last() {
            Some(stroke) => strokes_with_keys(strokes.drop_last()).push(stroke),
            None => strokes_with_keys(strokes.drop_last()),
        }
    }
}

/// How long playing events takes, in milliseconds.
pub open spec fn duration(events: Seq<MacroEvent>) -> nat
    decreases events.len(),
{
    if events.len() == 0 {
        0
    } else {
        duration(events.drop_last()) + events.last().delay_ms as nat
    }
}

/// Whether a key is down once events were played.
pub open spec fn is_held(events: Seq<MacroEvent>, keycode: u8) -> bool
    decreases events.len(),
{
    if events.len() == 0 {
        false
    } else if events.last().keycode == keycode {
        events.last().is_down
    } else {
        is_held(events.drop_last(), keycode)
    }
}

/// What one more stroke does to a player.
proof fn lemma_stroke_plays(a: Seq<MacroEvent>, s: Stroke, delay_ms: u16, keycode: u8)
    requires
        !shift_is_down(a),
        !is_held(a, keycode),
        s matches Some(k) ==> k.0 != 0xE1,
    ensures
        ({
            let all = a + stroke_events(s, delay_ms);
            &&& !shift_is_down(all)
            &&& !is_held(all, keycode)
            &&& typed(all) == (match s {
                Some(k) => typed(a).push(k),
                None => typed(a),
            })
            &&& duration(all) == duration(a) + (if s is Some {
                2 * delay_ms as nat
            } else {
                0
            })
        }),
{
    let b = stroke_events(s, delay_ms);
    let all = a + b;
    match s {
        None => {
            assert(all =~= a);
        },
        Some((k, shift)) => {
            if shift {
                assert(all.drop_last().drop_last().drop_last().drop_last() =~= a);
                assert(all.drop_last().last() == b[2]);
                assert(all.drop_last().drop_last().last() == b[1]);
                assert(all.drop_last().drop_last().drop_last().last() == b[0]);
                reveal_with_fuel(typed, 5);
                reveal_with_fuel(shift_is_down, 5);
                reveal_with_fuel(is_held, 5);
                reveal_with_fuel(duration, 5);
            } else {
                assert(all.drop_last().drop_last() =~= a);
                assert(all.drop_last().last() == b[0]);
                reveal_with_fuel(typed, 3);
                reveal_with_fuel(shift_is_down, 3);
                reveal_with_fuel(is_held, 3);
                reveal_with_fuel(duration, 3);
            }
            assert(typed(all) =~= typed(a).push((k, shift)));
        },
    }
}

/// What typing strokes does to a player.
proof fn lemma_typing(strokes: Seq<Stroke>, delay_ms: u16, keycode: u8)
    requires
        forall|i: int|
            0 <= i < strokes.len() ==> ((#[trigger] strokes[i]) matches Some(k) ==> k.0 != 0xE1),
    ensures
        ({
            let all = typing_events(strokes, delay_ms);
            &&& !shift_is_down(all)
            &&& !is_held(all, keycode)
            &&& typed(all) == strokes_with_keys(strokes)
            &&& duration(all) == 2 * delay_ms * strokes_with_keys(strokes).len()
        }),
    decreases strokes.len(),
{
    if strokes.len() > 0 {
        let before = strokes.drop_last();
        assert forall|i: int| 0 <= i < before.len() implies ((#[trigger] before[i]) matches Some(k)
            ==> k.0 != 0xE1) by {
            assert(before[i] == strokes[i]);
        }
        lemma_typing(before, delay_ms, keycode);
        assert(strokes[strokes.len() - 1] == strokes.last());
        lemma_stroke_plays(
            typing_events(before, delay_ms),
            strokes.last(),
            delay_ms,
            keycode,
        );
        let n = strokes_with_keys(before).len();
        assert(2 * delay_ms * n + 2 * delay_ms == 2 * delay_ms * (n + 1)) by (nonlinear_arith);
    }
}

/// Playing the events of a text types the text: the keys go down in the order of the
/// strokes, with shift down exactly where a stroke asks for it. At the end no key is down,
/// and every stroke has taken twice the delay.
pub proof fn playing_types_the_text(
    strokes: &[Stroke],
    delay_ms: u16,
    events: Vec<MacroEvent>,
    keycode: u8,
)
    requires
        call_ensures(text_macro_events, (strokes, delay_ms), events),
        forall|i: int|
            0 <= i < strokes@.len() ==> ((#[trigger] strokes@[i]) matches Some(k) ==> k.0 != 0xE1),
    ensures
        typed(events@) == strokes_with_keys(strokes@),
        !shift_is_down(events@),
        !is_held(events@, keycode),
        duration(events@) == 2 * delay_ms * strokes_with_keys(strokes@).len(),
{
    lemma_typing(strokes@, delay_ms, keycode);
}

/// Whether an event would be taken for the end of a macro.
pub open spec fn looks_like_the_end(e: MacroEvent) -> bool {
    e.keycode == 0 && !e.is_down && (e.delay_ms == 0 || e.delay_ms > 127)
}

/// A macro that is encoded and parsed is the same, and its data starts with the repeat
/// count and the first event: the key, the direction in the high bit, and the delay, in two
/// bytes from 1 to 127 ms and in four otherwise.
pub proof fn encoded_macro_parses(
    events: &[MacroEvent],
    repeat_count: u16,
    data: Vec<u8>,
    bytes: &[u8],
    parsed: (u16, Vec<MacroEvent>),
)
    requires
        call_ensures(encode_macro, (events, repeat_count), data),
        bytes@ == data@,
        call_ensures(parse_macro_events, (bytes,), parsed),
        forall|i: int| 0 <= i < events@.len() ==> !looks_like_the_end(#[trigger] events@[i]),
    ensures
        parsed.0 == repeat_count,
        parsed.1@ == events@,
        data@.len() >= 56,
        data@[0] + 256 * data@[1] == repeat_count,
        events@.len() > 0 ==> {
            let e = events@[0];
            let direction = if e.is_down {
                128int
            } else {
                0
            };
            &&& data@[2] == e.keycode
            &&& 1 <= e.delay_ms <= 127 ==> data@[3] == direction + e.delay_ms
            &&& !(1 <= e.delay_ms <= 127) ==> data@[3] == direction && data@[4] + 256 * data@[5]
                == e.delay_ms
        },
{
    assert forall|i: int| 0 <= i < events@.len() implies !crate::macros::reads_as_end(
        #[trigger] events@[i],
    ) by {
        assert(!looks_like_the_end(events@[i]));
    }
    stored_macro_parses(events@, repeat_count);
    crate::bits::le_bytes_round_trip(repeat_count);
    if events@.len() > 0 {
        lemma_events_bytes_first(events@);
        let b = event_bytes(events@[0]);
        let rest = events_bytes(events@.drop_first());
        let body = crate::bits::le_bytes(repeat_count) + (b + rest);
        assert(body[2] == b[0] && body[3] == b[1]);
        assert(data@[2] == body[2] && data@[3] == body[3]);
        if !(1 <= events@[0].delay_ms <= 127) {
            assert(body[4] == b[2] && body[5] == b[3]);
            assert(data@[4] == body[4] && data@[5] == body[5]);
        }
    }
}

/// Storing a macro sends its data to its slot, page by page in order, 56 bytes to a page,
/// with the last page marked.
pub proof fn macros_are_stored_in_order(
    kb: &KeyboardInterface,
    slot: MacroSlot,
    events: &[MacroEvent],
    repeat_count: u16,
    data: Vec<u8>,
    given: Seq<&[Reply]>,
    steps: Seq<Step<()>>,
    replies: Seq<Reply>,
    i: int,
)
    requires
        call_ensures(encode_macro, (events, repeat_count), data),
        given.len() == steps.len(),
        goes_through(steps, replies),
        forall|m: int|
            0 <= m < steps.len() ==> (#[trigger] given[m])@ == replies.take(m) && call_ensures(
                KeyboardInterface::set_macro,
                (kb, slot, events, repeat_count, given[m]),
                steps[m],
            ),
        0 <= i < data@.len(),
        data@.len() <= 256 * 56,
    ensures
        steps.last() == Step::<()>::Done(Ok(())),
        ({
            let sent = asked_for(steps);
            &&& 56 * (sent.len() - 1) < data@.len() <= 56 * sent.len()
            &&& i / 56 < sent.len()
            &&& sent[i / 56] matches RequestView::MacroPage { slot: to, page, last, chunk, .. }
            &&& to == slot
            &&& page == i / 56
            &&& last == (i / 56 == sent.len() - 1)
            &&& i % 56 < chunk.len()
            &&& chunk[i % 56] == data@[i]
        }),
{
    let list = macro_pages(slot, macro_data(events@, repeat_count));
    assert forall|m: int| 0 <= m < steps.len() implies (#[trigger] steps[m])@ == sent(
        seen(replies.take(m)),
        list,
    ) by {
        assert(given[m]@ == replies.take(m));
    }
    lemma_sent_run(list, steps, replies);
    crate::macros::macro_pages_cover(slot, data@, i);
}

/// A text macro is stored as the macro of the events that type the text.
pub proof fn text_macros_store_what_types_the_text(
    kb: &KeyboardInterface,
    slot: MacroSlot,
    strokes: &[Stroke],
    delay_ms: u16,
    repeat: u16,
    events: Vec<MacroEvent>,
    listed: &[MacroEvent],
    given: &[Reply],
    text_step: Step<()>,
    macro_step: Step<()>,
)
    requires
        call_ensures(text_macro_events, (strokes, delay_ms), events),
        listed@ == events@,
        call_ensures(
            KeyboardInterface::set_text_macro,
            (kb, slot, strokes, delay_ms, repeat, given),
            text_step,
        ),
        call_ensures(KeyboardInterface::set_macro, (kb, slot, listed, repeat, given), macro_step),
    ensures
        text_step@ == macro_step@,
{
}

/// Reading a macro asks its slot for one page after the other, and gives back what the slot
/// holds, from its start.
#[verifier::spinoff_prover]
pub proof fn macros_are_read_from_their_slot(
    kb: &KeyboardInterface,
    slot: MacroSlot,
    memory: Seq<u8>,
    given: &[Reply],
    step: Step<Vec<u8>>,
)
    requires
        memory.len() == 256,
        given@.len() <= 4,
        forall|p: int|
            0 <= p < given@.len() ==> ((#[trigger] given@[p]) matches Ok(d) && d@
                == seq![kb.commands.get_macro] + memory.subrange(64 * p, 64 * p + 64)),
        call_ensures(KeyboardInterface::get_macro, (kb, slot, given), step),
    ensures
        step@ matches StepView::Ask(q) ==> {
            &&& q matches RequestView::Raw(f)
            &&& f.cmd == kb.commands.get_macro
            &&& f.data == seq![slot.slot, given@.len() as u8]
        },
        step@ matches StepView::Done(r) ==> {
            &&& r matches Ok(data)
            &&& data.len() <= 256
            &&& data == memory.take(data.len() as int) || (data == seq![0u8, 0u8] && memory.take(
                64 * given@.len() as int,
            ) == Seq::new((64 * given@.len()) as nat, |i: int| 0xFFu8))
        },
{
    let cmd = kb.commands.get_macro;
    let all = seen(given@);
    assert forall|p: int| 0 <= p < all.len() implies #[trigger] all[p] == Ok::<
        Seq<u8>,
        crate::error::ErrorView,
    >(seq![cmd] + memory.subrange(64 * p, 64 * p + 64)) by {
        assert(given@[p] is Ok);
        assert(all[p] == crate::exchange::reply_view(given@[p]));
    }
    assert(memory.take(0) =~= Seq::<u8>::empty());
    lemma_macro_pages(cmd, slot, memory, all, 0);
}

/// A macro read from page `page` on.
proof fn lemma_macro_pages(
    cmd: u8,
    slot: MacroSlot,
    memory: Seq<u8>,
    all: Seq<crate::exchange::ReplyView>,
    page: nat,
)
    requires
        memory.len() == 256,
        page <= all.len() <= 4,
        forall|p: int|
            0 <= p < all.len() ==> #[trigger] all[p] == Ok::<Seq<u8>, crate::error::ErrorView>(
                seq![cmd] + memory.subrange(64 * p, 64 * p + 64),
            ),
    ensures
        ({
            let step = crate::macros::macro_read(
                cmd,
                slot,
                all,
                page,
                memory.take(64 * page as int),
            );
            &&& step matches StepView::Ask(q) ==> {
                &&& q matches RequestView::Raw(f)
                &&& f.cmd == cmd
                &&& f.data == seq![slot.slot, all.len() as u8]
            }
            &&& step matches StepView::Done(r) ==> (page > 0 || all.len() > 0) && {
                &&& r matches Ok(data)
                &&& data.len() <= 256
                &&& data == memory.take(data.len() as int) || (data == seq![0u8, 0u8]
                    && memory.take(64 * all.len() as int) == Seq::new(
                    (64 * all.len()) as nat,
                    |i: int| 0xFFu8,
                ))
            }
        }),
    decreases 4 - page,
{
    if page < 4 && page < all.len() {
        let d = all[page as int]->Ok_0;
        let part = memory.subrange(64 * page as int, 64 * page as int + 64);
        assert(crate::macros::without_echo(d, cmd) =~= part);
        let next = memory.take(64 * (page + 1) as int);
        assert(memory.take(64 * page as int) + part =~= next);
        if crate::macros::has_end(part) {
            let k = choose|k: int| #[trigger] crate::macros::zeros_at(part, k);
            assert(next[64 * page + k] == part[k]);
            assert(next[64 * page + k] != 0xFF);
        } else {
            lemma_macro_pages(cmd, slot, memory, all, page + 1);
        }
    } else if page >= 4 {
        let data = memory.take(256);
        assert(data =~= memory);
        if forall|i: int| 0 <= i < data.len() ==> data[i] == 0xFF {
            assert(memory.take(64 * all.len() as int) =~= Seq::new(
                (64 * all.len()) as nat,
                |i: int| 0xFFu8,
            ));
        }
    }
}

} // verus!
