//! What single keys' triggers promise.

use crate::exchange::{reply_view, seen, sent, whole, Reply, ReplyView, Step, StepView};
use crate::keyboard::KeyboardInterface;
use crate::laws::board::{
    answered, asked_for, asks_for, goes_through, lemma_block_asks, lemma_run, lemma_sent_run,
    lemma_told, overwritten, page_of, Board,
};
use crate::laws::settings::{lemma_outcome, not_supported, outcome};
use crate::laws::triggers::{
    lemma_triggers_answered, lemma_triggers_ask_flat, lemma_triggers_told, only_table_changes,
    tables_apart, trigger_requests, word_stored,
};
use crate::magnetism::{KeyTriggerSettings, ModeByte};
use crate::protocol::{CommandTable, RequestView};
use crate::triggers::{pages_of, table_pages, triggers_read};
use vstd::prelude::*;

verus! {

/// The sub-commands of the trigger tables.
pub open spec fn tables_of(c: CommandTable) -> Seq<u8> {
    let m = c.magnetism;
    seq![
        m.press_travel,
        m.lift_travel,
        m.rt_press,
        m.rt_lift,
        m.dks_travel,
        m.modtap_time,
        m.bottom_deadzone,
        m.key_mode,
        m.dks_trigger_modes_set,
        m.snaptap_enable,
        m.dks_modes,
        m.top_deadzone,
    ]
}

/// A Mod-Tap time is stored for its key in tens of milliseconds, 2550 ms at most, and changes
/// nothing else.
pub proof fn a_modtap_time_is_stored_in_tens(
    kb: &KeyboardInterface,
    key: u8,
    ms: u16,
    board: Board,
    none: &[Reply],
    one: &[Reply],
    asks: Step<()>,
    ends: Step<()>,
)
    requires
        board.full(),
        tables_apart(kb.commands.magnetism),
        none@.len() == 0,
        one@.len() == 1,
        call_ensures(KeyboardInterface::set_modtap_time, (kb, key, ms, none), asks),
        call_ensures(KeyboardInterface::set_modtap_time, (kb, key, ms, one), ends),
    ensures
        ({
            let table = kb.commands.magnetism.modtap_time;
            let before = (board.tables)(table);
            &&& asks@ matches StepView::Ask(q)
            &&& only_table_changes(board, board.after(kb.commands, q), table)
            &&& (board.after(kb.commands, q).tables)(table) == overwritten(
                before,
                1 * key,
                seq![if ms >= 2550 {
                    255u8
                } else {
                    (ms / 10) as u8
                }],
            )
        }),
        ends@ == outcome(one@[0]),
{
    lemma_outcome(one@);
    let q = asks@->Ask_0;
    let s = tables_of(kb.commands);
    assert(s[4] != s[8] && s[5] != s[8] && s[9] != s[8] && s[10] != s[8]);
    assert(q->Raw_0.data.skip(7) =~= seq![if ms >= 2550 {
                    255u8
                } else {
                    (ms / 10) as u8
                }]);
    let n = (seq![if ms >= 2550 {
                    255u8
                } else {
                    (ms / 10) as u8
                }]).len();
    let k = key as int;
    assert(n == 1 ==> k * n == 1 * k) by (nonlinear_arith);
}

/// A Dynamic Keystroke travel is stored for its key, low byte first, and changes nothing
/// else.
pub proof fn a_dks_travel_is_stored(
    kb: &KeyboardInterface,
    key: u8,
    travel: u16,
    board: Board,
    none: &[Reply],
    one: &[Reply],
    asks: Step<()>,
    ends: Step<()>,
)
    requires
        board.full(),
        tables_apart(kb.commands.magnetism),
        none@.len() == 0,
        one@.len() == 1,
        call_ensures(KeyboardInterface::set_dks_trigger_point_travel_raw, (kb, key, travel, none), asks),
        call_ensures(KeyboardInterface::set_dks_trigger_point_travel_raw, (kb, key, travel, one), ends),
    ensures
        ({
            let table = kb.commands.magnetism.dks_travel;
            let before = (board.tables)(table);
            &&& asks@ matches StepView::Ask(q)
            &&& only_table_changes(board, board.after(kb.commands, q), table)
            &&& (board.after(kb.commands, q).tables)(table) == overwritten(
                before,
                2 * key,
                seq![(travel % 256) as u8, (travel / 256) as u8],
            )
        }),
        ends@ == outcome(one@[0]),
{
    lemma_outcome(one@);
    let q = asks@->Ask_0;
    let s = tables_of(kb.commands);
    assert(s[4] != s[8] && s[5] != s[8] && s[9] != s[8] && s[10] != s[8]);
    assert(q->Raw_0.data.skip(7) =~= seq![(travel % 256) as u8, (travel / 256) as u8]);
    let n = (seq![(travel % 256) as u8, (travel / 256) as u8]).len();
    let k = key as int;
    assert(n == 2 ==> k * n == 2 * k) by (nonlinear_arith);
}

/// The packed bytes of a key are stored in the blob that reads them, four to a key, and change
/// nothing else.
pub proof fn packed_bytes_are_stored(
    kb: &KeyboardInterface,
    key: u8,
    modes: [u8; 4],
    board: Board,
    none: &[Reply],
    one: &[Reply],
    asks: Step<()>,
    ends: Step<()>,
)
    requires
        board.full(),
        tables_apart(kb.commands.magnetism),
        none@.len() == 0,
        one@.len() == 1,
        call_ensures(KeyboardInterface::set_dks_trigger_modes, (kb, key, modes, none), asks),
        call_ensures(KeyboardInterface::set_dks_trigger_modes, (kb, key, modes, one), ends),
    ensures
        ({
            let table = kb.commands.magnetism.dks_modes;
            let before = (board.tables)(table);
            &&& asks@ matches StepView::Ask(q)
            &&& only_table_changes(board, board.after(kb.commands, q), table)
            &&& (board.after(kb.commands, q).tables)(table) == overwritten(
                before,
                4 * key,
                modes@,
            )
        }),
        ends@ == outcome(one@[0]),
{
    lemma_outcome(one@);
    let q = asks@->Ask_0;
    let s = tables_of(kb.commands);
    assert(s[4] != s[8] && s[5] != s[8] && s[9] != s[8] && s[10] != s[8]);
    assert(q->Raw_0.data.skip(7) =~= modes@);
    let n = (modes@).len();
    let k = key as int;
    assert(n == 4 ==> k * n == 4 * k) by (nonlinear_arith);
}

/// A key's bytes of a table go out behind the sub-command, the key and the flag that saves.
pub proof fn a_table_entry_goes_out_as_it_is(
    kb: &KeyboardInterface,
    sub_cmd: u8,
    key: u8,
    is_final: bool,
    payload: &[u8],
    none: &[Reply],
    one: &[Reply],
    asks: Step<()>,
    ends: Step<()>,
)
    requires
        none@.len() == 0,
        one@.len() == 1,
        call_ensures(KeyboardInterface::set_magnetism_simple, (kb, sub_cmd, key, is_final, payload, none), asks),
        call_ensures(KeyboardInterface::set_magnetism_simple, (kb, sub_cmd, key, is_final, payload, one), ends),
    ensures
        ({
            &&& asks@ matches StepView::Ask(q)
            &&& q matches RequestView::Raw(f)
            &&& f.cmd == kb.commands.set_multi_magnetism
            &&& f.data.len() == 7 + payload@.len()
            &&& f.data[0] == sub_cmd
            &&& f.data[1] == 0
            &&& f.data[2] == key
            &&& f.data[3] == (if is_final { 1int } else { 0 })
            &&& f.data.skip(7) == payload@
        }),
        ends@ == outcome(one@[0]),
{
    assert(asks@->Ask_0->Raw_0.data.skip(7) =~= payload@);
    lemma_outcome(one@);
}

/// Setting the mode of all keys sends it once per key, with Rapid Trigger off.
pub proof fn one_mode_for_all_keys(
    kb: &KeyboardInterface,
    mode: ModeByte,
    none: &[Reply],
    one: &[Reply],
    asks: Step<()>,
    ends: Step<()>,
)
    requires
        none@.len() == 0,
        one@.len() == 1,
        call_ensures(KeyboardInterface::set_mode_all, (kb, mode, none), asks),
        call_ensures(KeyboardInterface::set_mode_all, (kb, mode, one), ends),
    ensures
        ({
            &&& asks@ matches StepView::Ask(q)
            &&& q matches RequestView::Raw(f)
            &&& f.cmd == kb.commands.set_multi_magnetism
            &&& f.data.len() == 1 + kb.key_count
            &&& f.data[0] == kb.commands.magnetism.key_mode
            &&& forall|i: int|
                1 <= i <= kb.key_count ==> (#[trigger] f.data[i]) < 128 && f.data[i] % 128
                    == mode.base.code % 128
        }),
        ends@ == outcome(one@[0]),
{
    lemma_outcome(one@);
}

/// Calibrating released keys is switched on with 1 and off with 0.
pub proof fn released_keys_are_calibrated(
    kb: &KeyboardInterface,
    start: bool,
    none: &[Reply],
    one: &[Reply],
    asks: Step<()>,
    ends: Step<()>,
)
    requires
        none@.len() == 0,
        one@.len() == 1,
        call_ensures(KeyboardInterface::calibrate_min, (kb, start, none), asks),
        call_ensures(KeyboardInterface::calibrate_min, (kb, start, one), ends),
    ensures
        ({
            &&& asks@ matches StepView::Ask(q)
            &&& q matches RequestView::Raw(f)
            &&& f.cmd == kb.commands.set_magnetism_cal
            &&& f.data == seq![if start { 1u8 } else { 0u8 }]
        }),
        ends@ == outcome(one@[0]),
{
    lemma_outcome(one@);
}

/// Calibrating pressed keys is switched on with 1 and off with 0.
pub proof fn pressed_keys_are_calibrated(
    kb: &KeyboardInterface,
    start: bool,
    none: &[Reply],
    one: &[Reply],
    asks: Step<()>,
    ends: Step<()>,
)
    requires
        none@.len() == 0,
        one@.len() == 1,
        call_ensures(KeyboardInterface::calibrate_max, (kb, start, none), asks),
        call_ensures(KeyboardInterface::calibrate_max, (kb, start, one), ends),
    ensures
        ({
            &&& asks@ matches StepView::Ask(q)
            &&& q matches RequestView::Raw(f)
            &&& f.cmd == kb.commands.set_magnetism_max_cal
            &&& f.data == seq![if start { 1u8 } else { 0u8 }]
        }),
        ends@ == outcome(one@[0]),
{
    lemma_outcome(one@);
}

/// Depth reports are turned on and off by one request, where there are magnetic switches.
pub proof fn depth_reports_are_switched(
    kb: &KeyboardInterface,
    none: &[Reply],
    on: Step<()>,
    off: Step<()>,
)
    requires
        none@.len() == 0,
        call_ensures(KeyboardInterface::start_magnetism_report, (kb, none), on),
        call_ensures(KeyboardInterface::stop_magnetism_report, (kb, none), off),
    ensures
        kb.has_magnetism ==> on@ == StepView::<()>::Ask(
            RequestView::MagnetismReport { enable: true },
        ),
        kb.has_magnetism ==> off@ == StepView::<()>::Ask(
            RequestView::MagnetismReport { enable: false },
        ),
        !kb.has_magnetism ==> not_supported(on),
        !kb.has_magnetism ==> off == Step::<()>::Done(Ok(())),
{
}

/// Turning Rapid Trigger on or off for all keys reads the modes and writes each back with
/// the flag changed: the mode of every key stays.
#[verifier::spinoff_prover]
pub proof fn rapid_trigger_for_all_keeps_each_mode(
    kb: &KeyboardInterface,
    enable: bool,
    board: Board,
    given: &[Reply],
    step: Step<()>,
)
    requires
        board.full(),
        given@.len() == pages_of(kb.key_count as nat),
        forall|p: int|
            0 <= p < given@.len() ==> ((#[trigger] given@[p]) matches Ok(d) && d@ == page_of(
                (board.tables)(kb.commands.magnetism.key_mode),
                p as u8,
            )),
        call_ensures(KeyboardInterface::set_rapid_trigger_all, (kb, enable, given), step),
    ensures
        ({
            let modes = (board.tables)(kb.commands.magnetism.key_mode);
            &&& step@ matches StepView::Ask(RequestView::Raw(f))
            &&& f.cmd == kb.commands.set_multi_magnetism
            &&& f.data.len() == 1 + kb.key_count
            &&& f.data[0] == kb.commands.magnetism.key_mode
            &&& forall|i: int|
                0 <= i < kb.key_count ==> (#[trigger] f.data[i + 1]) % 128 == modes[i] % 128 && (
                f.data[i + 1] >= 128) == enable
        }),
{
    let c = kb.commands;
    let p0 = pages_of(kb.key_count as nat);
    let modes = (board.tables)(c.magnetism.key_mode);
    let list = table_pages(c, c.magnetism.key_mode, p0);
    let all = seen(given@);
    assert(modes.len() >= 512);
    assert(kb.key_count <= 64 * p0 && p0 <= 4);
    assert forall|p: int| 0 <= p < all.len() implies #[trigger] all[0 + p] == Ok::<
        Seq<u8>,
        crate::error::ErrorView,
    >(page_of(modes, p as u8)) by {
        assert(given@[p] is Ok);
        assert(all[p] == reply_view(given@[p]));
    }
    lemma_told(list, all, 0, modes);
    let value = modes.take(64 * p0 as int);
    let f = step@->Ask_0->Raw_0;
    assert forall|i: int| 0 <= i < kb.key_count implies (#[trigger] f.data[i + 1]) % 128 == modes[i]
        % 128 && (f.data[i + 1] >= 128) == enable by {
        assert(value[i] == modes[i]);
    }
}

/// Reading the Dynamic Keystroke travels asks for the pages of their table in order, and gives
/// every key's word.
#[verifier::spinoff_prover]
pub proof fn dks_travels_are_read(
    kb: &KeyboardInterface,
    board: Board,
    given: &[Reply],
    step: Step<Vec<u16>>,
)
    requires
        board.full(),
        forall|p: int|
            0 <= p < given@.len() ==> ((#[trigger] given@[p]) matches Ok(d) && d@ == page_of(
                (board.tables)(kb.commands.magnetism.dks_travel),
                p as u8,
            )),
        call_ensures(KeyboardInterface::get_dks_travels, (kb, given), step),
    ensures
        step@ matches StepView::Ask(RequestView::Raw(f)) ==> f.cmd
            == kb.commands.get_multi_magnetism && f.data == seq![
            kb.commands.magnetism.dks_travel,
            1u8,
            given@.len() as u8,
        ],
        2 * kb.key_count <= given@.len() * 64 ==> ({
            let store = (board.tables)(kb.commands.magnetism.dks_travel);
            &&& step matches Step::Done(Ok(v))
            &&& v@.len() == kb.key_count
            &&& forall|i: int|
                0 <= i < kb.key_count ==> #[trigger] v@[i] == word_stored(store, i)
        }),
{
    let c = kb.commands;
    let sub = c.magnetism.dks_travel;
    let store = (board.tables)(sub);
    let count = crate::macros::page_count(kb.key_count as nat, 32);
    let list = table_pages(c, sub, count);
    let all = seen(given@);
    assert(store.len() >= 512);
    assert forall|p: int| 0 <= p < all.len() implies #[trigger] all[0 + p] == Ok::<
        Seq<u8>,
        crate::error::ErrorView,
    >(page_of(store, p as u8)) by {
        assert(given@[p] is Ok);
        assert(all[p] == reply_view(given@[p]));
    }
    assert forall|p: int| 0 <= p < all.len() implies (#[trigger] all[p]) is Ok by {
        assert(all[0 + p] is Ok);
    }
    lemma_block_asks(list, all, 0);
    if 2 * kb.key_count <= given@.len() * 64 {
        assert(count <= given@.len());
        lemma_told(list, all, 0, store);
        let got = store.take(64 * count as int);
        assert(2 * kb.key_count <= got.len());
    } else {
        assert(given@.len() < count);
        assert(step@->Ask_0 == list[given@.len() as int]);
    }
}

/// Reading the packed bytes asks for the pages of their blob in order, and gives them as they
/// are stored.
#[verifier::spinoff_prover]
pub proof fn packed_bytes_are_read(
    kb: &KeyboardInterface,
    board: Board,
    given: &[Reply],
    step: Step<Vec<u8>>,
)
    requires
        board.full(),
        forall|p: int|
            0 <= p < given@.len() ==> ((#[trigger] given@[p]) matches Ok(d) && d@ == page_of(
                (board.tables)(kb.commands.magnetism.dks_modes),
                p as u8,
            )),
        call_ensures(KeyboardInterface::get_dks_trigger_modes_blob, (kb, given), step),
    ensures
        step@ matches StepView::Ask(RequestView::Raw(f)) ==> f.cmd
            == kb.commands.get_multi_magnetism && f.data == seq![
            kb.commands.magnetism.dks_modes,
            1u8,
            given@.len() as u8,
        ],
        512int <= given@.len() * 64 ==> ({
            let store = (board.tables)(kb.commands.magnetism.dks_modes);
            &&& step matches Step::Done(Ok(v))
            &&& v@ == store.take(512)
        }),
{
    let c = kb.commands;
    let sub = c.magnetism.dks_modes;
    let store = (board.tables)(sub);
    let count = 8nat;
    let list = table_pages(c, sub, count);
    let all = seen(given@);
    assert(store.len() >= 512);
    assert forall|p: int| 0 <= p < all.len() implies #[trigger] all[0 + p] == Ok::<
        Seq<u8>,
        crate::error::ErrorView,
    >(page_of(store, p as u8)) by {
        assert(given@[p] is Ok);
        assert(all[p] == reply_view(given@[p]));
    }
    assert forall|p: int| 0 <= p < all.len() implies (#[trigger] all[p]) is Ok by {
        assert(all[0 + p] is Ok);
    }
    lemma_block_asks(list, all, 0);
    if 512int <= given@.len() * 64 {
        assert(count <= given@.len());
        lemma_told(list, all, 0, store);
    } else {
        assert(given@.len() < count);
        assert(step@->Ask_0 == list[given@.len() as int]);
    }
}

/// Reading the Mod-Tap times asks for the pages of their table in order, and gives every key's
/// byte in tens of milliseconds.
#[verifier::spinoff_prover]
pub proof fn modtap_times_are_read(
    kb: &KeyboardInterface,
    board: Board,
    given: &[Reply],
    step: Step<Vec<u16>>,
)
    requires
        board.full(),
        forall|p: int|
            0 <= p < given@.len() ==> ((#[trigger] given@[p]) matches Ok(d) && d@ == page_of(
                (board.tables)(kb.commands.magnetism.modtap_time),
                p as u8,
            )),
        call_ensures(KeyboardInterface::get_modtap_times, (kb, given), step),
    ensures
        step@ matches StepView::Ask(RequestView::Raw(f)) ==> f.cmd
            == kb.commands.get_multi_magnetism && f.data == seq![
            kb.commands.magnetism.modtap_time,
            1u8,
            given@.len() as u8,
        ],
        kb.key_count <= given@.len() * 64 ==> ({
            let store = (board.tables)(kb.commands.magnetism.modtap_time);
            &&& step matches Step::Done(Ok(v))
            &&& v@.len() == kb.key_count
            &&& forall|i: int| 0 <= i < kb.key_count ==> #[trigger] v@[i] == 10 * store[i]
        }),
{
    let c = kb.commands;
    let sub = c.magnetism.modtap_time;
    let store = (board.tables)(sub);
    let count = pages_of(kb.key_count as nat);
    let list = table_pages(c, sub, count);
    let all = seen(given@);
    assert(store.len() >= 512);
    assert forall|p: int| 0 <= p < all.len() implies #[trigger] all[0 + p] == Ok::<
        Seq<u8>,
        crate::error::ErrorView,
    >(page_of(store, p as u8)) by {
        assert(given@[p] is Ok);
        assert(all[p] == reply_view(given@[p]));
    }
    assert forall|p: int| 0 <= p < all.len() implies (#[trigger] all[p]) is Ok by {
        assert(all[0 + p] is Ok);
    }
    lemma_block_asks(list, all, 0);
    if kb.key_count <= given@.len() * 64 {
        assert(count <= given@.len());
        lemma_told(list, all, 0, store);
    } else {
        assert(given@.len() < count);
        assert(step@->Ask_0 == list[given@.len() as int]);
    }
}

/// Reading the Snap-Tap partners asks for the pages of their table in order, and gives every
/// key's byte.
#[verifier::spinoff_prover]
pub proof fn snaptap_partners_are_read(
    kb: &KeyboardInterface,
    board: Board,
    given: &[Reply],
    step: Step<Vec<u8>>,
)
    requires
        board.full(),
        forall|p: int|
            0 <= p < given@.len() ==> ((#[trigger] given@[p]) matches Ok(d) && d@ == page_of(
                (board.tables)(kb.commands.magnetism.snaptap_enable),
                p as u8,
            )),
        call_ensures(KeyboardInterface::get_snaptap_binds, (kb, given), step),
    ensures
        step@ matches StepView::Ask(RequestView::Raw(f)) ==> f.cmd
            == kb.commands.get_multi_magnetism && f.data == seq![
            kb.commands.magnetism.snaptap_enable,
            1u8,
            given@.len() as u8,
        ],
        kb.key_count <= given@.len() * 64 ==> ({
            let store = (board.tables)(kb.commands.magnetism.snaptap_enable);
            &&& step matches Step::Done(Ok(v))
            &&& v@.len() == kb.key_count
            &&& forall|i: int| 0 <= i < kb.key_count ==> #[trigger] v@[i] == store[i]
        }),
{
    let c = kb.commands;
    let sub = c.magnetism.snaptap_enable;
    let store = (board.tables)(sub);
    let count = pages_of(kb.key_count as nat);
    let list = table_pages(c, sub, count);
    let all = seen(given@);
    assert(store.len() >= 512);
    assert forall|p: int| 0 <= p < all.len() implies #[trigger] all[0 + p] == Ok::<
        Seq<u8>,
        crate::error::ErrorView,
    >(page_of(store, p as u8)) by {
        assert(given@[p] is Ok);
        assert(all[p] == reply_view(given@[p]));
    }
    assert forall|p: int| 0 <= p < all.len() implies (#[trigger] all[p]) is Ok by {
        assert(all[0 + p] is Ok);
    }
    lemma_block_asks(list, all, 0);
    if kb.key_count <= given@.len() * 64 {
        assert(count <= given@.len());
        lemma_told(list, all, 0, store);
    } else {
        assert(given@.len() < count);
        assert(step@->Ask_0 == list[given@.len() as int]);
    }
}

/// Binding two keys stores each as the partner of the other, and changes nothing else.
pub proof fn a_pair_is_stored_both_ways(
    kb: &KeyboardInterface,
    key_a: u8,
    key_b: u8,
    board: Board,
    given: Seq<&[Reply]>,
    steps: Seq<Step<()>>,
    replies: Seq<Reply>,
    other: int,
)
    requires
        board.full(),
        tables_apart(kb.commands.magnetism),
        key_a != key_b,
        0 <= other < 512,
        given.len() == steps.len(),
        goes_through(steps, replies),
        forall|m: int|
            0 <= m < steps.len() ==> (#[trigger] given[m])@ == replies.take(m) && call_ensures(
                KeyboardInterface::set_snaptap_pair,
                (kb, key_a, key_b, given[m]),
                steps[m],
            ),
    ensures
        steps.last() == Step::<()>::Done(Ok(())),
        ({
            let table = kb.commands.magnetism.snaptap_enable;
            let after = board.after_all(kb.commands, asked_for(steps));
            &&& (after.tables)(table)[key_a as int] == key_b
            &&& (after.tables)(table)[key_b as int] == key_a
            &&& other != key_a && other != key_b ==> (after.tables)(table)[other] == (board.tables)(
                table,
            )[other]
            &&& only_table_changes(board, after, table)
        }),
{
    let c = kb.commands;
    let list = crate::triggers::pair_writes(c, key_a, key_b);
    assert forall|m: int| 0 <= m < steps.len() implies (#[trigger] steps[m])@ == sent(
        seen(replies.take(m)),
        list,
    ) by {
        assert(given[m]@ == replies.take(m));
    }
    lemma_sent_run(list, steps, replies);
    let s = tables_of(c);
    assert(s[9] != s[8]);
    assert((board.tables)(c.magnetism.snaptap_enable).len() >= 512);
    reveal_with_fuel(Board::after_all, 3);
    assert(list.drop_last() =~= seq![list[0]]);
    assert(list.drop_last().drop_last() =~= Seq::<RequestView>::empty());
    assert(list[0]->Raw_0.data.skip(7) =~= seq![key_b]);
    assert(list[1]->Raw_0.data.skip(7) =~= seq![key_a]);
    assert(key_a * 1 == key_a && key_b * 1 == key_b);
}

/// Clearing a key's binding unbinds the key and its partner, if it has one on the board, and
/// no other key.
#[verifier::spinoff_prover]
pub proof fn a_cleared_pair_is_unbound_both_ways(
    kb: &KeyboardInterface,
    key: u8,
    board: Board,
    given: Seq<&[Reply]>,
    steps: Seq<Step<()>>,
    replies: Seq<Reply>,
    other: int,
)
    requires
        board.full(),
        tables_apart(kb.commands.magnetism),
        key < kb.key_count,
        0 <= other < 512,
        given.len() == steps.len(),
        ({
            let p0 = pages_of(kb.key_count as nat);
            &&& steps.len() == replies.len() + 1
            &&& steps.last() is Done
            &&& forall|m: int|
                0 <= m < replies.len() ==> (#[trigger] steps[m]) is Ask && replies[m] is Ok
            &&& forall|m: int|
                0 <= m < p0 && m < replies.len() ==> (#[trigger] replies[m])->Ok_0@ == page_of(
                    (board.tables)(kb.commands.magnetism.snaptap_enable),
                    m as u8,
                )
        }),
        forall|m: int|
            0 <= m < steps.len() ==> (#[trigger] given[m])@ == replies.take(m) && call_ensures(
                KeyboardInterface::clear_snaptap,
                (kb, key, given[m]),
                steps[m],
            ),
    ensures
        steps.last() == Step::<()>::Done(Ok(())),
        ({
            let p0 = pages_of(kb.key_count as nat) as int;
            let table = kb.commands.magnetism.snaptap_enable;
            let before = (board.tables)(table);
            let partner = before[key as int];
            let after = board.after_all(kb.commands, asked_for(steps).skip(p0));
            &&& p0 <= asked_for(steps).len()
            &&& (after.tables)(table)[key as int] == 0xFF
            &&& partner < kb.key_count ==> (after.tables)(table)[partner as int] == 0xFF
            &&& other != key && other != partner ==> (after.tables)(table)[other] == before[other]
            &&& partner >= kb.key_count && other != key ==> (after.tables)(table)[other]
                == before[other]
            &&& only_table_changes(board, after, table)
        }),
{
    let c = kb.commands;
    let sub = c.magnetism.snaptap_enable;
    let p0 = pages_of(kb.key_count as nat);
    let store = (board.tables)(sub);
    let list = table_pages(c, sub, p0);
    let all = seen(replies);
    assert(store.len() >= 512);
    assert(kb.key_count <= 64 * p0 && 0 < p0 <= 4);
    let binds = store.take(kb.key_count as int);
    let keys = crate::triggers::unbound_keys(binds, key);
    let writes = crate::triggers::unbind_writes(c, keys);
    let total = p0 + writes.len();
    assert forall|i: int| 0 <= i < all.len() implies (#[trigger] all[i]) is Ok by {
        assert(steps[i] is Ask);
        assert(all[i] == reply_view(replies[i]));
    }
    assert forall|m: int| 0 <= m < steps.len() implies {
        &&& m < p0 ==> (#[trigger] steps[m])@ == StepView::<()>::Ask(list[m])
        &&& p0 <= m < total ==> steps[m]@ == StepView::<()>::Ask(writes[m - p0])
        &&& m >= total ==> steps[m]@ == StepView::<()>::Done(Ok(()))
    } by {
        assert(given[m]@ == replies.take(m));
        let r = all.take(m);
        crate::laws::board::lemma_seen_take(replies, m);
        assert forall|i: int| 0 <= i < r.len() implies (#[trigger] r[i]) is Ok by {
            assert(r[i] == all[i]);
        }
        lemma_block_asks(list, r, 0);
        if m >= p0 {
            assert forall|i: int| 0 <= i < list.len() implies #[trigger] r[0 + i] == Ok::<
                Seq<u8>,
                crate::error::ErrorView,
            >(page_of(store, i as u8)) by {
                assert(r[i] == all[i]);
                assert(all[i] == reply_view(replies[i]));
                assert(replies[i]->Ok_0@ == page_of(store, i as u8));
                assert(steps[i] is Ask);
            }
            lemma_told(list, r, 0, store);
            let got = store.take(64 * p0 as int);
            assert(crate::triggers::up_to(got, kb.key_count as nat) =~= binds);
            crate::exchange::walk_asks_in_order(writes, r, p0);
        }
    }
    let last = steps.len() - 1;
    assert(steps[last]@ is Done);
    assert(last >= total);
    if last > total {
        assert(steps[total as int] is Ask);
        assert(steps[total as int]@ is Done);
    }
    assert(asked_for(steps).skip(p0 as int) =~= writes) by {
        assert forall|j: int| 0 <= j < writes.len() implies #[trigger] asked_for(steps)[p0 + j]
            == writes[j] by {
            assert(steps[p0 + j]@ == StepView::<()>::Ask(writes[p0 + j - p0]));
        }
    }
    let s = tables_of(c);
    assert(s[9] != s[8]);
    let unbound = seq![0xFFu8];
    reveal_with_fuel(Board::after_all, 3);
    let one = board.after(c, writes[0]);
    assert(writes[0]->Raw_0.data.skip(7) =~= unbound);
    assert(key * 1 == key);
    assert((one.tables)(sub) == overwritten(store, key as int, unbound));
    if keys.len() == 2 {
        let partner = keys[1];
        assert(writes.drop_last() =~= seq![writes[0]]);
        assert(writes.drop_last().drop_last() =~= Seq::<RequestView>::empty());
        assert(writes[1]->Raw_0.data.skip(7) =~= unbound);
        assert(partner * 1 == partner);
        let two = one.after(c, writes[1]);
        assert(board.after_all(c, writes) == two);
        assert((two.tables)(sub) == overwritten((one.tables)(sub), partner as int, unbound));
    } else {
        assert(writes.drop_last() =~= Seq::<RequestView>::empty());
        assert(board.after_all(c, writes) == one);
    }
}

/// Reading one key's triggers gives what the tables store for that key.
#[verifier::spinoff_prover]
pub proof fn one_keys_triggers_are_read(
    kb: &KeyboardInterface,
    key: u8,
    board: Board,
    given: Seq<&[Reply]>,
    steps: Seq<Step<KeyTriggerSettings>>,
    replies: Seq<Reply>,
)
    requires
        kb.has_magnetism,
        key < kb.key_count,
        board.full(),
        given.len() == steps.len(),
        answered(board, kb.commands, steps, replies),
        forall|m: int|
            0 <= m < steps.len() ==> (#[trigger] given[m])@ == replies.take(m) && call_ensures(
                KeyboardInterface::get_key_trigger,
                (kb, key, given[m]),
                steps[m],
            ),
        steps.last() is Done,
    ensures
        ({
            let m = kb.commands.magnetism;
            let i = key as int;
            &&& steps.last() matches Step::Done(Ok(t))
            &&& t.key_index == key
            &&& t.actuation == word_stored((board.tables)(m.press_travel), i)
            &&& t.deactuation == word_stored((board.tables)(m.lift_travel), i)
            &&& t.mode.code == (board.tables)(m.key_mode)[i] % 128
            &&& t.rapid_trigger == ((board.tables)(m.key_mode)[i] >= 128)
        }),
{
    let c = kb.commands;
    let n = kb.key_count;
    let op = |r: Seq<ReplyView>|
        match whole(triggers_read(c, true, n, r, 0)) {
            StepView::Ask(request) => StepView::Ask(request),
            StepView::Done(Err(e)) => StepView::Done(Err(e)),
            StepView::Done(Ok(all)) => StepView::Done(Ok(all.of_key(key))),
        };
    let flat = trigger_requests(c, n);
    assert(asks_for(op, flat)) by {
        assert forall|r: Seq<ReplyView>|
            (forall|i: int| 0 <= i < r.len() ==> (#[trigger] r[i]) is Ok) implies {
            &&& r.len() < flat.len() ==> #[trigger] op(r) == StepView::<KeyTriggerSettings>::Ask(
                flat[r.len() as int],
            )
            &&& r.len() >= flat.len() ==> op(r) is Done
        } by {
            lemma_triggers_ask_flat(c, n, r, 0);
        }
    }
    assert forall|m: int| 0 <= m < steps.len() implies (#[trigger] steps[m])@ == op(
        seen(replies.take(m)),
    ) by {
        assert(given[m]@ == replies.take(m));
    }
    lemma_run(op, flat, board, c, steps, replies);
    let all = seen(replies);
    assert forall|k: int| 0 <= k < flat.len() implies #[trigger] all[0 + k] == board.answer(
        c,
        flat[k],
    ) by {
        assert(all[k] == board.answer(c, flat[k]));
    }
    lemma_triggers_answered(board, c, n, all, 0);
    lemma_triggers_told(board, c, n, all, 0);
}

} // verus!
