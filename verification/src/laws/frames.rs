//! What the frames of a request promise: how they are protected, and which page is marked as
//! the last.

use crate::exchange::{seen, sent, Reply, Step, StepView};
use crate::keyboard::KeyboardInterface;
use crate::laws::board::{asked_for, goes_through, lemma_sent_run};
use crate::protocol::{ChecksumType, Delivery, KeymatrixLayer, MacroSlot, Profile, RequestView};
use crate::triggers::{table_write, up_to, word_bytes};
use vstd::prelude::*;

verus! {

/// The checksum that protects a request, if it is a frame.
pub open spec fn protection(q: RequestView) -> Option<ChecksumType> {
    match q {
        RequestView::Raw(f) => Some(f.checksum),
        _ => None,
    }
}

/// Settings are asked for and set in frames with the checksum in byte 7; what is asked for
/// waits for an answer, and what is set does not.
pub proof fn settings_are_protected(
    kb: &KeyboardInterface,
    ms: u8,
    none: &[Reply],
    get: Step<u8>,
    set: Step<()>,
)
    requires
        none@.len() == 0,
        ms <= 50,
        call_ensures(KeyboardInterface::get_debounce, (kb, none), get),
        call_ensures(KeyboardInterface::set_debounce, (kb, ms, none), set),
    ensures
        get@ matches StepView::Ask(q) && protection(q) == Some(ChecksumType::Bit7)
            && q->Raw_0.delivery == Delivery::Query && q->Raw_0.data.len() == 0,
        set@ matches StepView::Ask(q) && protection(q) == Some(ChecksumType::Bit7)
            && q->Raw_0.delivery == Delivery::Send && q->Raw_0.data == seq![ms],
{
    assert(seen(none@).len() == 0);
}

/// A command that is handed through keeps its bytes: one that is asked waits for an answer,
/// one that is sent fast does not wait at all.
pub proof fn commands_are_handed_through(
    kb: &KeyboardInterface,
    cmd: u8,
    data: &[u8],
    none: &[Reply],
    ask: Step<Vec<u8>>,
    send: Step<()>,
    fast: Step<()>,
)
    requires
        none@.len() == 0,
        call_ensures(KeyboardInterface::query_raw_cmd_data, (kb, cmd, data, none), ask),
        call_ensures(KeyboardInterface::send_raw_cmd, (kb, cmd, data, none), send),
        call_ensures(KeyboardInterface::send_raw_cmd_fast, (kb, cmd, data, none), fast),
    ensures
        ask@ matches StepView::Ask(q) && protection(q) == Some(ChecksumType::Bit7) && q->Raw_0.cmd
            == cmd && q->Raw_0.data == data@ && q->Raw_0.delivery == Delivery::Query,
        send@ matches StepView::Ask(q) && protection(q) == Some(ChecksumType::Bit7) && q->Raw_0.cmd
            == cmd && q->Raw_0.data == data@ && q->Raw_0.delivery == Delivery::Send,
        fast@ matches StepView::Ask(q) && protection(q) == Some(ChecksumType::Bit7) && q->Raw_0.cmd
            == cmd && q->Raw_0.data == data@ && q->Raw_0.delivery == Delivery::SendThenWait(0),
{
    assert(seen(none@).len() == 0);
}

/// Light settings have the checksum in byte 8, and streamed lights have none.
pub proof fn lights_are_protected_their_way(
    kb: &KeyboardInterface,
    params: &crate::led::LedParams,
    page: u8,
    rgb: &[u8],
    none: &[Reply],
    colors: &[(u8, u8, u8)],
    led_layer: u8,
    side: Step<()>,
    colored: Step<()>,
    streamed: Step<()>,
    shown: Step<()>,
    ended: Step<()>,
)
    requires
        none@.len() == 0,
        call_ensures(KeyboardInterface::set_side_led_params, (kb, params, none), side),
        kb.matrix_len() > 0,
        call_ensures(
            KeyboardInterface::set_per_key_colors_to_layer,
            (kb, colors, led_layer, none),
            colored,
        ),
        call_ensures(KeyboardInterface::stream_led_page, (kb, page, rgb, none), streamed),
        call_ensures(KeyboardInterface::stream_led_commit, (kb, none), shown),
        call_ensures(KeyboardInterface::stream_led_release, (kb, none), ended),
    ensures
        side@ matches StepView::Ask(q) && protection(q) == Some(ChecksumType::Bit8),
        colored@ matches StepView::Ask(q) && protection(q) == Some(ChecksumType::Bit8),
        streamed@ matches StepView::Ask(q) && protection(q) == Some(ChecksumType::Unprotected),
        shown@ matches StepView::Ask(q) && protection(q) == Some(ChecksumType::Unprotected),
        ended@ matches StepView::Ask(q) && protection(q) == Some(ChecksumType::Unprotected),
{
    assert(seen(none@).len() == 0);
}

/// Bindings and macros are read page by page in protected frames.
pub proof fn pages_are_read_protected(
    kb: &KeyboardInterface,
    profile: Profile,
    layer: KeymatrixLayer,
    num_pages: usize,
    slot: MacroSlot,
    none: &[Reply],
    bindings: Step<Vec<u8>>,
    actions: Step<Vec<u8>>,
)
    requires
        none@.len() == 0,
        num_pages > 0,
        call_ensures(
            KeyboardInterface::get_keymatrix,
            (kb, profile, layer, num_pages, none),
            bindings,
        ),
        call_ensures(KeyboardInterface::get_macro, (kb, slot, none), actions),
    ensures
        bindings@ matches StepView::Ask(q) && protection(q) == Some(ChecksumType::Bit7)
            && q->Raw_0.delivery is QueryPage,
        actions@ matches StepView::Ask(q) && protection(q) == Some(ChecksumType::Bit7)
            && q->Raw_0.delivery is QueryPage,
{
    assert(seen(none@).len() == 0);
}

/// A trigger table goes out in protected pages that are numbered from zero, and only the last
/// of them is marked as the last.
pub proof fn only_the_last_page_is_marked(
    kb: &KeyboardInterface,
    table: u8,
    values: &[u16],
    given: Seq<&[Reply]>,
    steps: Seq<Step<()>>,
    replies: Seq<Reply>,
    m: int,
)
    requires
        given.len() == steps.len(),
        goes_through(steps, replies),
        forall|m: int|
            0 <= m < steps.len() ==> (#[trigger] given[m])@ == replies.take(m) && call_ensures(
                KeyboardInterface::set_magnetism_u16,
                (kb, table, values, given[m]),
                steps[m],
            ),
        0 <= m < asked_for(steps).len(),
    ensures
        ({
            let q = asked_for(steps)[m];
            &&& protection(q) == Some(ChecksumType::Bit7)
            &&& q->Raw_0.cmd == kb.commands.set_multi_magnetism
            &&& q->Raw_0.data.len() >= 7
            &&& q->Raw_0.data[0] == table
            &&& q->Raw_0.data[2] == m
            &&& q->Raw_0.data[3] == (if m == asked_for(steps).len() - 1 {
                1u8
            } else {
                0u8
            })
        }),
{
    let c = kb.commands;
    let kept = up_to(values@, kb.key_count as nat);
    let list = table_write(c, table, word_bytes(kept));
    assert forall|n: int| 0 <= n < steps.len() implies (#[trigger] steps[n])@ == sent(
        seen(replies.take(n)),
        list,
    ) by {
        assert(given[n]@ == replies.take(n));
    }
    lemma_sent_run(list, steps, replies);
    assert(list.len() <= 10);
    assert(m % 256 == m);
}

} // verus!
