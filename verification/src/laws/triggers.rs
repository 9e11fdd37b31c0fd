//! What the trigger tables promise.

use crate::exchange::{block, seen, sent, whole, PartView, Reply, ReplyView, Step, StepView};
use crate::keyboard::KeyboardInterface;
use crate::laws::board::{
    answered, asked_for, asks_for, goes_through, lemma_block_asks, lemma_run, lemma_sent_run,
    lemma_told, overwritten, page_of, Board,
};
use crate::magnetism::{KeyTriggerSettings, TriggerSettings, TriggerView};
use crate::protocol::{CommandTable, MagnetismTable, RequestView};
use crate::settings::TravelDepth;
use crate::triggers::{
    key_write, pages_of, table_pages, table_write, triggers_read, two_tables_read, word_bytes,
};
use vstd::prelude::*;

verus! {

/// A table of words over replies that all went through.
proof fn lemma_two_tables_ask(
    c: CommandTable,
    first_sub: u8,
    second_sub: u8,
    key_count: u8,
    r: Seq<ReplyView>,
    at: nat,
)
    requires
        at <= r.len(),
        forall|i: int| at <= i < r.len() ==> (#[trigger] r[i]) is Ok,
    ensures
        ({
            let p = pages_of(2 * key_count as nat);
            let k = r.len() - at;
            let part = two_tables_read(c, first_sub, second_sub, key_count, r, at);
            &&& k < p ==> part == PartView::<(Seq<u8>, Seq<u8>)>::Ask(table_pages(c, first_sub, p)[k])
            &&& p <= k < 2 * p ==> part == PartView::<(Seq<u8>, Seq<u8>)>::Ask(
                table_pages(c, second_sub, p)[k - p],
            )
            &&& k >= 2 * p ==> (part matches PartView::Found { next, .. } && next == at + 2 * p)
        }),
{
    let p = pages_of(2 * key_count as nat);
    lemma_block_asks(table_pages(c, first_sub, p), r, at);
    if r.len() - at >= p {
        lemma_block_asks(table_pages(c, second_sub, p), r, at + p);
    }
}

/// The deadzones over replies that all went through.
proof fn lemma_deadzones_ask(c: CommandTable, key_count: u8, r: Seq<ReplyView>, at: nat)
    requires
        at <= r.len(),
        forall|i: int| at <= i < r.len() ==> (#[trigger] r[i]) is Ok,
    ensures
        ({
            let p = pages_of(2 * key_count as nat);
            let k = r.len() - at;
            let part = crate::triggers::deadzones_read(c, key_count, r, at);
            let m = c.magnetism;
            &&& k < p ==> part == PartView::<(Seq<u8>, Seq<u8>)>::Ask(
                table_pages(c, m.bottom_deadzone, p)[k],
            )
            &&& p <= k < 2 * p ==> part == PartView::<(Seq<u8>, Seq<u8>)>::Ask(
                table_pages(c, m.top_deadzone, p)[k - p],
            )
            &&& k >= 2 * p ==> (part matches PartView::Found { next, .. } && next == at + 2 * p)
        }),
{
    let p = pages_of(2 * key_count as nat);
    lemma_block_asks(table_pages(c, c.magnetism.bottom_deadzone, p), r, at);
    if r.len() - at >= p {
        lemma_block_asks(table_pages(c, c.magnetism.top_deadzone, p), r, at + p);
    }
}

/// The tables in the order in which they are read, behind the modes.
pub open spec fn word_table(m: MagnetismTable, j: int) -> u8 {
    if j == 0 {
        m.press_travel
    } else if j == 1 {
        m.lift_travel
    } else if j == 2 {
        m.rt_press
    } else if j == 3 {
        m.rt_lift
    } else if j == 4 {
        m.bottom_deadzone
    } else {
        m.top_deadzone
    }
}

/// Reading the trigger tables over replies that all went through.
#[verifier::spinoff_prover]
pub proof fn lemma_triggers_ask(c: CommandTable, key_count: u8, r: Seq<ReplyView>, at: nat, j: int)
    requires
        at <= r.len(),
        forall|i: int| at <= i < r.len() ==> (#[trigger] r[i]) is Ok,
        0 <= j < 6,
    ensures
        ({
            let p0 = pages_of(key_count as nat);
            let p = pages_of(2 * key_count as nat);
            let k = r.len() - at;
            let part = triggers_read(c, true, key_count, r, at);
            let m = c.magnetism;
            &&& k < p0 ==> part == PartView::<TriggerView>::Ask(
                table_pages(c, m.key_mode, p0)[k],
            )
            &&& p0 + j * p <= k < p0 + (j + 1) * p ==> part == PartView::<
                TriggerView,
            >::Ask(table_pages(c, word_table(m, j), p)[k - p0 - j * p])
            &&& k >= p0 + 6 * p ==> (part matches PartView::Found { next, .. } && next == at + p0
                + 6 * p)
        }),
{
    let p0 = pages_of(key_count as nat);
    let p = pages_of(2 * key_count as nat);
    let k = r.len() - at;
    let m = c.magnetism;
    lemma_block_asks(table_pages(c, m.key_mode, p0), r, at);
    assert(j == 0 || j == 1 || j == 2 || j == 3 || j == 4 || j == 5);
    assert(0 * p == 0 && 1 * p == p && 2 * p == p + p && 3 * p == p + p + p && 4 * p == p + p + p
        + p && 5 * p == p + p + p + p + p && 6 * p == p + p + p + p + p + p) by (nonlinear_arith);
    if k >= p0 {
        lemma_two_tables_ask(c, m.press_travel, m.lift_travel, key_count, r, at + p0);
        if k >= p0 + 2 * p {
            lemma_two_tables_ask(c, m.rt_press, m.rt_lift, key_count, r, at + p0 + 2 * p);
            if k >= p0 + 4 * p {
                lemma_deadzones_ask(c, key_count, r, at + p0 + 4 * p);
            }
        }
    }
}

/// Replies from a keyboard's stores: `tables` at the pages that the trigger tables ask for.
pub open spec fn tells_triggers(
    board: Board,
    c: CommandTable,
    key_count: u8,
    r: Seq<ReplyView>,
    at: nat,
) -> bool {
    let p0 = pages_of(key_count as nat);
    let p = pages_of(2 * key_count as nat);
    &&& at + p0 + 6 * p <= r.len()
    &&& forall|i: int|
        0 <= i < p0 ==> #[trigger] r[at + i] == Ok::<Seq<u8>, crate::error::ErrorView>(
            page_of((board.tables)(c.magnetism.key_mode), i as u8),
        )
    &&& forall|j: int, i: int|
        0 <= j < 6 && 0 <= i < p ==> #[trigger] r[at + p0 + j * p + i] == Ok::<
            Seq<u8>,
            crate::error::ErrorView,
        >(page_of((board.tables)(word_table(c.magnetism, j)), i as u8))
}

/// Whether a list of words is what a table stores for the first `n` keys, low byte first.
pub open spec fn shows_words(list: Seq<u16>, table: Seq<u8>, n: int) -> bool {
    &&& list.len() == n
    &&& forall|i: int| 0 <= i < n ==> #[trigger] list[i] == table[2 * i] + 256 * table[2 * i + 1]
}

/// One table of words that was told is found.
proof fn lemma_table_told(
    board: Board,
    c: CommandTable,
    key_count: u8,
    r: Seq<ReplyView>,
    at: nat,
    j: int,
)
    requires
        board.full(),
        tells_triggers(board, c, key_count, r, at),
        0 <= j < 6,
    ensures
        ({
            let p0 = pages_of(key_count as nat);
            let p = pages_of(2 * key_count as nat);
            let store = (board.tables)(word_table(c.magnetism, j));
            &&& p <= 8
            &&& 0 <= j * p
            &&& block(
                table_pages(c, word_table(c.magnetism, j), p),
                r,
                (at + p0 + j * p) as nat,
            ) == (PartView::Found {
                value: store.take(64 * p as int),
                next: (at + p0 + (j + 1) * p) as nat,
            })
            &&& shows_words(
                crate::magnetism::words(store.take(64 * p as int), key_count as nat),
                store,
                key_count as int,
            )
        }),
{
    let p0 = pages_of(key_count as nat);
    let p = pages_of(2 * key_count as nat);
    let store = (board.tables)(word_table(c.magnetism, j));
    assert(store.len() >= 512);
    assert(2 * key_count <= 64 * p && p <= 8);
    assert(0 <= j * p && (j + 1) * p == j * p + p && (j + 1) * p <= 6 * p) by (nonlinear_arith)
        requires
            0 <= j < 6,
            0 <= p,
    ;
    let list = table_pages(c, word_table(c.magnetism, j), p);
    assert forall|i: int| 0 <= i < list.len() implies #[trigger] r[(at + p0 + j * p) as nat + i]
        == Ok::<Seq<u8>, crate::error::ErrorView>(page_of(store, i as u8)) by {
        assert(r[at + p0 + j * p + i] == Ok::<Seq<u8>, crate::error::ErrorView>(
            page_of((board.tables)(word_table(c.magnetism, j)), i as u8),
        ));
    }
    lemma_told(list, r, (at + p0 + j * p) as nat, store);
}

/// What reading the trigger tables comes to once they were told.
#[verifier::spinoff_prover]
pub proof fn lemma_triggers_told(
    board: Board,
    c: CommandTable,
    key_count: u8,
    r: Seq<ReplyView>,
    at: nat,
)
    requires
        board.full(),
        tells_triggers(board, c, key_count, r, at),
    ensures
        ({
            let n = key_count as int;
            let m = c.magnetism;
            let p0 = pages_of(key_count as nat);
            let p = pages_of(2 * key_count as nat);
            &&& triggers_read(c, true, key_count, r, at) matches PartView::Found { value: t, next }
            &&& next == at + p0 + 6 * p
            &&& t.key_count == n
            &&& shows_words(t.press_travel, (board.tables)(m.press_travel), n)
            &&& shows_words(t.lift_travel, (board.tables)(m.lift_travel), n)
            &&& shows_words(t.rt_press, (board.tables)(m.rt_press), n)
            &&& shows_words(t.rt_lift, (board.tables)(m.rt_lift), n)
            &&& shows_words(t.bottom_deadzone, (board.tables)(m.bottom_deadzone), n)
            &&& shows_words(t.top_deadzone, (board.tables)(m.top_deadzone), n)
            &&& t.key_modes.len() >= n
            &&& forall|i: int|
                0 <= i < n ==> #[trigger] t.key_modes[i] == (board.tables)(m.key_mode)[i]
        }),
{
    let m = c.magnetism;
    let p0 = pages_of(key_count as nat);
    let p = pages_of(2 * key_count as nat);
    let modes = (board.tables)(m.key_mode);
    assert(modes.len() >= 512);
    assert(key_count <= 64 * p0 && p0 <= 4);
    lemma_told(table_pages(c, m.key_mode, p0), r, at, modes);
    lemma_table_told(board, c, key_count, r, at, 0);
    lemma_table_told(board, c, key_count, r, at, 1);
    lemma_table_told(board, c, key_count, r, at, 2);
    lemma_table_told(board, c, key_count, r, at, 3);
    lemma_table_told(board, c, key_count, r, at, 4);
    lemma_table_told(board, c, key_count, r, at, 5);
    assert(0 * p == 0 && 1 * p == p && 2 * p == p + p && 3 * p == p + p + p && 4 * p == p + p + p
        + p && 5 * p == p + p + p + p + p && 6 * p == p + p + p + p + p + p) by (nonlinear_arith);
}

/// The requests of a read of the trigger tables, in order.
pub open spec fn trigger_requests(c: CommandTable, key_count: u8) -> Seq<RequestView> {
    let p0 = pages_of(key_count as nat);
    let p = pages_of(2 * key_count as nat);
    Seq::new(
        p0 + 6 * p,
        |k: int|
            if k < p0 {
                table_pages(c, c.magnetism.key_mode, p0)[k]
            } else {
                table_pages(c, word_table(c.magnetism, (k - p0) / p as int), p)[(k - p0) % p as int]
            },
    )
}

/// Reading the trigger tables asks for their pages in order.
pub proof fn lemma_triggers_ask_flat(c: CommandTable, key_count: u8, r: Seq<ReplyView>, at: nat)
    requires
        at <= r.len(),
        forall|i: int| at <= i < r.len() ==> (#[trigger] r[i]) is Ok,
    ensures
        ({
            let flat = trigger_requests(c, key_count);
            let part = triggers_read(c, true, key_count, r, at);
            &&& r.len() - at < flat.len() ==> part == PartView::<TriggerView>::Ask(
                flat[r.len() - at],
            )
            &&& r.len() - at >= flat.len() ==> (part matches PartView::Found { next, .. } && next
                == at + flat.len())
        }),
{
    let p0 = pages_of(key_count as nat);
    let p = pages_of(2 * key_count as nat);
    let k = r.len() - at;
    if p0 <= k < p0 + 6 * p {
        let j = (k - p0) / p as int;
        let i = (k - p0) % p as int;
        assert(0 <= j < 6 && k - p0 == j * p + i && 0 <= i < p && (j + 1) * p == j * p + p)
            by (nonlinear_arith)
            requires
                j == (k - p0) / p as int,
                i == (k - p0) % p as int,
                0 <= k - p0 < 6 * p,
                p > 0,
        ;
        lemma_triggers_ask(c, key_count, r, at, j);
    } else {
        lemma_triggers_ask(c, key_count, r, at, 0);
    }
}

/// Answers to the requests of a read of the trigger tables tell the tables.
pub proof fn lemma_triggers_answered(
    board: Board,
    c: CommandTable,
    key_count: u8,
    r: Seq<ReplyView>,
    at: nat,
)
    requires
        at + trigger_requests(c, key_count).len() <= r.len(),
        forall|k: int|
            0 <= k < trigger_requests(c, key_count).len() ==> #[trigger] r[at + k] == board.answer(
                c,
                trigger_requests(c, key_count)[k],
            ),
    ensures
        tells_triggers(board, c, key_count, r, at),
{
    let p0 = pages_of(key_count as nat);
    let p = pages_of(2 * key_count as nat);
    let flat = trigger_requests(c, key_count);
    assert(p0 <= 4 && p <= 8);
    assert forall|i: int| 0 <= i < p0 implies #[trigger] r[at + i] == Ok::<
        Seq<u8>,
        crate::error::ErrorView,
    >(page_of((board.tables)(c.magnetism.key_mode), i as u8)) by {
        assert(r[at + i] == board.answer(c, flat[i]));
    }
    assert forall|j: int, i: int| 0 <= j < 6 && 0 <= i < p implies #[trigger] r[at + p0 + j * p + i]
        == Ok::<Seq<u8>, crate::error::ErrorView>(
        page_of((board.tables)(word_table(c.magnetism, j)), i as u8),
    ) by {
        let k = p0 + j * p + i;
        assert((k - p0) / p as int == j && (k - p0) % p as int == i && p0 <= k < p0 + 6 * p) by {
            vstd::arithmetic::div_mod::lemma_fundamental_div_mod_converse(k - p0, p as int, j, i);
            assert(0 <= j * p && j * p + p <= 6 * p) by (nonlinear_arith)
                requires
                    0 <= j < 6,
                    0 <= p,
            ;
        }
        assert(r[at + k] == board.answer(c, flat[k]));
    }
}

/// Reading all triggers shows, in every field, what the keyboard stores in the table of
/// that field's name, and nothing of another table.
#[verifier::spinoff_prover]
pub proof fn triggers_are_read_into_their_fields(
    kb: &KeyboardInterface,
    board: Board,
    given: Seq<&[Reply]>,
    steps: Seq<Step<TriggerSettings>>,
    replies: Seq<Reply>,
)
    requires
        kb.has_magnetism,
        board.full(),
        given.len() == steps.len(),
        answered(board, kb.commands, steps, replies),
        forall|m: int|
            0 <= m < steps.len() ==> (#[trigger] given[m])@ == replies.take(m) && call_ensures(
                KeyboardInterface::get_all_triggers,
                (kb, given[m]),
                steps[m],
            ),
        steps.last() is Done,
    ensures
        ({
            let n = kb.key_count as int;
            let m = kb.commands.magnetism;
            &&& steps.last() matches Step::Done(Ok(t))
            &&& t.key_count == n
            &&& shows_words(t.press_travel@, (board.tables)(m.press_travel), n)
            &&& shows_words(t.lift_travel@, (board.tables)(m.lift_travel), n)
            &&& shows_words(t.rt_press@, (board.tables)(m.rt_press), n)
            &&& shows_words(t.rt_lift@, (board.tables)(m.rt_lift), n)
            &&& shows_words(t.bottom_deadzone@, (board.tables)(m.bottom_deadzone), n)
            &&& shows_words(t.top_deadzone@, (board.tables)(m.top_deadzone), n)
            &&& forall|i: int|
                0 <= i < n ==> #[trigger] t.key_modes@[i] == (board.tables)(m.key_mode)[i]
        }),
{
    let c = kb.commands;
    let n = kb.key_count;
    let op = |r: Seq<ReplyView>| whole(triggers_read(c, true, n, r, 0));
    let flat = trigger_requests(c, n);
    assert(asks_for(op, flat)) by {
        assert forall|r: Seq<ReplyView>|
            (forall|i: int| 0 <= i < r.len() ==> (#[trigger] r[i]) is Ok) implies {
            &&& r.len() < flat.len() ==> #[trigger] op(r) == StepView::<TriggerView>::Ask(
                flat[r.len() as int],
            )
            &&& r.len() >= flat.len() ==> op(r) is Done
        } by {
            lemma_triggers_ask_flat(c, n, r, 0);
        }
    }
    assert forall|m: int| 0 <= m < steps.len() implies (#[trigger] steps[m])@ == op(
        seen(replies.take(m)),
    ) by {
        assert(given[m]@ == replies.take(m));
    }
    lemma_run(op, flat, board, c, steps, replies);
    let all = seen(replies);
    assert forall|k: int| 0 <= k < flat.len() implies #[trigger] all[0 + k] == board.answer(
        c,
        flat[k],
    ) by {
        assert(all[k] == board.answer(c, flat[k]));
    }
    lemma_triggers_answered(board, c, n, all, 0);
    lemma_triggers_told(board, c, n, all, 0);
}

/// Whether no two trigger tables share a sub-command.
pub open spec fn tables_apart(m: MagnetismTable) -> bool {
    seq![
        m.press_travel,
        m.lift_travel,
        m.rt_press,
        m.rt_lift,
        m.dks_travel,
        m.modtap_time,
        m.bottom_deadzone,
        m.key_mode,
        m.dks_trigger_modes_set,
        m.snaptap_enable,
        m.dks_modes,
        m.top_deadzone,
    ].no_duplicates()
}

/// What follows for the sub-command of the packed Dynamic Keystroke bytes.
proof fn lemma_tables_apart(m: MagnetismTable)
    requires
        tables_apart(m),
    ensures
        m.press_travel != m.dks_trigger_modes_set,
        m.lift_travel != m.dks_trigger_modes_set,
        m.rt_press != m.dks_trigger_modes_set,
        m.rt_lift != m.dks_trigger_modes_set,
        m.dks_travel != m.dks_trigger_modes_set,
        m.modtap_time != m.dks_trigger_modes_set,
        m.bottom_deadzone != m.dks_trigger_modes_set,
        m.key_mode != m.dks_trigger_modes_set,
        m.snaptap_enable != m.dks_trigger_modes_set,
        m.dks_modes != m.dks_trigger_modes_set,
        m.top_deadzone != m.dks_trigger_modes_set,
        m.press_travel != m.lift_travel,
        m.press_travel != m.key_mode,
        m.lift_travel != m.key_mode,
        m.dks_travel != m.dks_modes,
{
    let s = seq![
        m.press_travel,
        m.lift_travel,
        m.rt_press,
        m.rt_lift,
        m.dks_travel,
        m.modtap_time,
        m.bottom_deadzone,
        m.key_mode,
        m.dks_trigger_modes_set,
        m.snaptap_enable,
        m.dks_modes,
        m.top_deadzone,
    ];
    assert(s[0] != s[8] && s[1] != s[8] && s[2] != s[8] && s[3] != s[8] && s[4] != s[8] && s[5]
        != s[8] && s[6] != s[8] && s[7] != s[8] && s[9] != s[8] && s[10] != s[8] && s[11] != s[8]);
    assert(s[0] != s[1] && s[0] != s[7] && s[1] != s[7] && s[4] != s[10]);
}

/// The word that a table stores for a key.
pub open spec fn word_stored(table: Seq<u8>, i: int) -> int {
    table[2 * i] + 256 * table[2 * i + 1]
}

/// Whether two boards store the same but for one trigger table.
pub open spec fn only_table_changes(before: Board, after: Board, table: u8) -> bool {
    &&& forall|s: u8| s != table ==> #[trigger] (after.tables)(s) == (before.tables)(s)
    &&& after.layers == before.layers
    &&& after.fn_tables == before.fn_tables
}

/// Pages that write a table put its bytes at the start of it.
proof fn lemma_table_written(board: Board, c: CommandTable, sub: u8, bytes: Seq<u8>, n: int)
    requires
        bytes.len() <= 510,
        (board.tables)(sub).len() >= 512,
        sub != c.magnetism.dks_trigger_modes_set,
        0 <= n <= table_write(c, sub, bytes).len(),
    ensures
        ({
            let after = board.after_all(c, table_write(c, sub, bytes).take(n));
            &&& (after.tables)(sub).len() == (board.tables)(sub).len()
            &&& forall|i: int|
                0 <= i < bytes.len() && i < 56 * n ==> #[trigger] (after.tables)(sub)[i] == bytes[i]
            &&& only_table_changes(board, after, sub)
        }),
    decreases n,
{
    let all = table_write(c, sub, bytes);
    if n > 0 {
        let m = n - 1;
        lemma_table_written(board, c, sub, bytes, m);
        let before = board.after_all(c, all.take(m));
        assert(all.take(n).drop_last() =~= all.take(m));
        assert(all.take(n).last() == all[m]);
        let f = all[m]->Raw_0;
        assert(m * 56 < bytes.len());
        let end = if (m + 1) * 56 < bytes.len() {
            (m + 1) * 56
        } else {
            bytes.len() as int
        };
        let body = bytes.subrange(m * 56, end);
        assert(f.data.skip(7) =~= body);
        assert(f.data[2] == m && f.data[1] == 1 && f.data[0] == sub);
        let after = before.after(c, all[m]);
        assert((after.tables)(sub) == overwritten((before.tables)(sub), 56 * m, body));
        assert(board.after_all(c, all.take(n)) == after);
        assert forall|i: int| 0 <= i < bytes.len() && i < 56 * n implies #[trigger] (after.tables)(
            sub,
        )[i] == bytes[i] by {
            if i < 56 * m {
                assert((before.tables)(sub)[i] == bytes[i]);
            } else {
                assert(body[i - 56 * m] == bytes[i]);
            }
        }
    } else {
        assert(all.take(0) =~= Seq::<RequestView>::empty());
    }
}

/// A table of words that is written stores them.
pub proof fn lemma_words_written(board: Board, c: CommandTable, sub: u8, values: Seq<u16>)
    requires
        board.full(),
        values.len() <= 255,
        tables_apart(c.magnetism),
        sub == c.magnetism.press_travel || sub == c.magnetism.lift_travel || sub
            == c.magnetism.rt_press || sub == c.magnetism.rt_lift || sub
            == c.magnetism.bottom_deadzone || sub == c.magnetism.top_deadzone,
    ensures
        ({
            let after = board.after_all(c, table_write(c, sub, word_bytes(values)));
            &&& forall|i: int|
                0 <= i < values.len() ==> #[trigger] word_stored((after.tables)(sub), i)
                    == values[i]
            &&& only_table_changes(board, after, sub)
        }),
{
    lemma_tables_apart(c.magnetism);
    let bytes = word_bytes(values);
    let all = table_write(c, sub, bytes);
    assert((board.tables)(sub).len() >= 512);
    lemma_table_written(board, c, sub, bytes, all.len() as int);
    assert(all.take(all.len() as int) =~= all);
    let after = board.after_all(c, all);
    assert(bytes.len() <= 56 * all.len());
    assert forall|i: int| 0 <= i < values.len() implies #[trigger] word_stored(
        (after.tables)(sub),
        i,
    ) == values[i] by {
        assert((after.tables)(sub)[2 * i] == bytes[2 * i]);
        assert((after.tables)(sub)[2 * i + 1] == bytes[2 * i + 1]);
        assert(bytes[2 * i] == crate::bits::le_bytes(values[i])[0]);
        assert(bytes[2 * i + 1] == crate::bits::le_bytes(values[i])[1]);
    }
}

/// Setting the actuation point of all keys stores it for every key, and changes nothing else.
pub proof fn set_actuation_all_stores_it(
    kb: &KeyboardInterface,
    travel: TravelDepth,
    board: Board,
    given: Seq<&[Reply]>,
    steps: Seq<Step<()>>,
    replies: Seq<Reply>,
)
    requires
        board.full(),
        tables_apart(kb.commands.magnetism),
        given.len() == steps.len(),
        goes_through(steps, replies),
        forall|m: int|
            0 <= m < steps.len() ==> (#[trigger] given[m])@ == replies.take(m) && call_ensures(
                KeyboardInterface::set_actuation_all,
                (kb, travel, given[m]),
                steps[m],
            ),
    ensures
        steps.last() == Step::<()>::Done(Ok(())),
        ({
            let after = board.after_all(kb.commands, asked_for(steps));
            let table = kb.commands.magnetism.press_travel;
            &&& forall|i: int|
                0 <= i < kb.key_count ==> #[trigger] word_stored((after.tables)(table), i)
                    == travel.units()
            &&& only_table_changes(board, after, table)
        }),
{
    let c = kb.commands;
    let values = Seq::new(kb.key_count as nat, |i: int| travel.units());
    let list = table_write(c, c.magnetism.press_travel, word_bytes(values));
    assert forall|m: int| 0 <= m < steps.len() implies (#[trigger] steps[m])@ == sent(
        seen(replies.take(m)),
        list,
    ) by {
        assert(given[m]@ == replies.take(m));
    }
    lemma_sent_run(list, steps, replies);
    lemma_words_written(board, c, c.magnetism.press_travel, values);
}

/// Setting the release point of all keys stores it for every key, and changes nothing else.
pub proof fn set_release_all_stores_it(
    kb: &KeyboardInterface,
    travel: TravelDepth,
    board: Board,
    given: Seq<&[Reply]>,
    steps: Seq<Step<()>>,
    replies: Seq<Reply>,
)
    requires
        board.full(),
        tables_apart(kb.commands.magnetism),
        given.len() == steps.len(),
        goes_through(steps, replies),
        forall|m: int|
            0 <= m < steps.len() ==> (#[trigger] given[m])@ == replies.take(m) && call_ensures(
                KeyboardInterface::set_release_all,
                (kb, travel, given[m]),
                steps[m],
            ),
    ensures
        steps.last() == Step::<()>::Done(Ok(())),
        ({
            let after = board.after_all(kb.commands, asked_for(steps));
            let table = kb.commands.magnetism.lift_travel;
            &&& forall|i: int|
                0 <= i < kb.key_count ==> #[trigger] word_stored((after.tables)(table), i)
                    == travel.units()
            &&& only_table_changes(board, after, table)
        }),
{
    let c = kb.commands;
    let values = Seq::new(kb.key_count as nat, |i: int| travel.units());
    let list = table_write(c, c.magnetism.lift_travel, word_bytes(values));
    assert forall|m: int| 0 <= m < steps.len() implies (#[trigger] steps[m])@ == sent(
        seen(replies.take(m)),
        list,
    ) by {
        assert(given[m]@ == replies.take(m));
    }
    lemma_sent_run(list, steps, replies);
    lemma_words_written(board, c, c.magnetism.lift_travel, values);
}

/// Setting the Rapid Trigger press sensitivity of all keys stores it for every key, and changes nothing else.
pub proof fn set_rt_press_all_stores_it(
    kb: &KeyboardInterface,
    travel: TravelDepth,
    board: Board,
    given: Seq<&[Reply]>,
    steps: Seq<Step<()>>,
    replies: Seq<Reply>,
)
    requires
        board.full(),
        tables_apart(kb.commands.magnetism),
        given.len() == steps.len(),
        goes_through(steps, replies),
        forall|m: int|
            0 <= m < steps.len() ==> (#[trigger] given[m])@ == replies.take(m) && call_ensures(
                KeyboardInterface::set_rt_press_all,
                (kb, travel, given[m]),
                steps[m],
            ),
    ensures
        steps.last() == Step::<()>::Done(Ok(())),
        ({
            let after = board.after_all(kb.commands, asked_for(steps));
            let table = kb.commands.magnetism.rt_press;
            &&& forall|i: int|
                0 <= i < kb.key_count ==> #[trigger] word_stored((after.tables)(table), i)
                    == travel.units()
            &&& only_table_changes(board, after, table)
        }),
{
    let c = kb.commands;
    let values = Seq::new(kb.key_count as nat, |i: int| travel.units());
    let list = table_write(c, c.magnetism.rt_press, word_bytes(values));
    assert forall|m: int| 0 <= m < steps.len() implies (#[trigger] steps[m])@ == sent(
        seen(replies.take(m)),
        list,
    ) by {
        assert(given[m]@ == replies.take(m));
    }
    lemma_sent_run(list, steps, replies);
    lemma_words_written(board, c, c.magnetism.rt_press, values);
}

/// Setting the Rapid Trigger release sensitivity of all keys stores it for every key, and changes nothing else.
pub proof fn set_rt_lift_all_stores_it(
    kb: &KeyboardInterface,
    travel: TravelDepth,
    board: Board,
    given: Seq<&[Reply]>,
    steps: Seq<Step<()>>,
    replies: Seq<Reply>,
)
    requires
        board.full(),
        tables_apart(kb.commands.magnetism),
        given.len() == steps.len(),
        goes_through(steps, replies),
        forall|m: int|
            0 <= m < steps.len() ==> (#[trigger] given[m])@ == replies.take(m) && call_ensures(
                KeyboardInterface::set_rt_lift_all,
                (kb, travel, given[m]),
                steps[m],
            ),
    ensures
        steps.last() == Step::<()>::Done(Ok(())),
        ({
            let after = board.after_all(kb.commands, asked_for(steps));
            let table = kb.commands.magnetism.rt_lift;
            &&& forall|i: int|
                0 <= i < kb.key_count ==> #[trigger] word_stored((after.tables)(table), i)
                    == travel.units()
            &&& only_table_changes(board, after, table)
        }),
{
    let c = kb.commands;
    let values = Seq::new(kb.key_count as nat, |i: int| travel.units());
    let list = table_write(c, c.magnetism.rt_lift, word_bytes(values));
    assert forall|m: int| 0 <= m < steps.len() implies (#[trigger] steps[m])@ == sent(
        seen(replies.take(m)),
        list,
    ) by {
        assert(given[m]@ == replies.take(m));
    }
    lemma_sent_run(list, steps, replies);
    lemma_words_written(board, c, c.magnetism.rt_lift, values);
}

/// Setting the bottom deadzone of all keys stores it for every key, and changes nothing else.
pub proof fn set_bottom_deadzone_all_stores_it(
    kb: &KeyboardInterface,
    travel: TravelDepth,
    board: Board,
    given: Seq<&[Reply]>,
    steps: Seq<Step<()>>,
    replies: Seq<Reply>,
)
    requires
        board.full(),
        tables_apart(kb.commands.magnetism),
        given.len() == steps.len(),
        goes_through(steps, replies),
        forall|m: int|
            0 <= m < steps.len() ==> (#[trigger] given[m])@ == replies.take(m) && call_ensures(
                KeyboardInterface::set_bottom_deadzone_all,
                (kb, travel, given[m]),
                steps[m],
            ),
    ensures
        steps.last() == Step::<()>::Done(Ok(())),
        ({
            let after = board.after_all(kb.commands, asked_for(steps));
            let table = kb.commands.magnetism.bottom_deadzone;
            &&& forall|i: int|
                0 <= i < kb.key_count ==> #[trigger] word_stored((after.tables)(table), i)
                    == travel.units()
            &&& only_table_changes(board, after, table)
        }),
{
    let c = kb.commands;
    let values = Seq::new(kb.key_count as nat, |i: int| travel.units());
    let list = table_write(c, c.magnetism.bottom_deadzone, word_bytes(values));
    assert forall|m: int| 0 <= m < steps.len() implies (#[trigger] steps[m])@ == sent(
        seen(replies.take(m)),
        list,
    ) by {
        assert(given[m]@ == replies.take(m));
    }
    lemma_sent_run(list, steps, replies);
    lemma_words_written(board, c, c.magnetism.bottom_deadzone, values);
}

/// Setting the top deadzone of all keys stores it for every key, and changes nothing else.
pub proof fn set_top_deadzone_all_stores_it(
    kb: &KeyboardInterface,
    travel: TravelDepth,
    board: Board,
    given: Seq<&[Reply]>,
    steps: Seq<Step<()>>,
    replies: Seq<Reply>,
)
    requires
        board.full(),
        tables_apart(kb.commands.magnetism),
        given.len() == steps.len(),
        goes_through(steps, replies),
        forall|m: int|
            0 <= m < steps.len() ==> (#[trigger] given[m])@ == replies.take(m) && call_ensures(
                KeyboardInterface::set_top_deadzone_all,
                (kb, travel, given[m]),
                steps[m],
            ),
    ensures
        steps.last() == Step::<()>::Done(Ok(())),
        ({
            let after = board.after_all(kb.commands, asked_for(steps));
            let table = kb.commands.magnetism.top_deadzone;
            &&& forall|i: int|
                0 <= i < kb.key_count ==> #[trigger] word_stored((after.tables)(table), i)
                    == travel.units()
            &&& only_table_changes(board, after, table)
        }),
{
    let c = kb.commands;
    let values = Seq::new(kb.key_count as nat, |i: int| travel.units());
    let list = table_write(c, c.magnetism.top_deadzone, word_bytes(values));
    assert forall|m: int| 0 <= m < steps.len() implies (#[trigger] steps[m])@ == sent(
        seen(replies.take(m)),
        list,
    ) by {
        assert(given[m]@ == replies.take(m));
    }
    lemma_sent_run(list, steps, replies);
    lemma_words_written(board, c, c.magnetism.top_deadzone, values);
}

/// An entry of a key that is written.
proof fn lemma_entry_written(
    board: Board,
    c: CommandTable,
    sub: u8,
    key: u8,
    is_final: bool,
    payload: Seq<u8>,
)
    ensures
        ({
            let after = board.after(c, key_write(c, sub, key, is_final, payload));
            let table = if sub == c.magnetism.dks_trigger_modes_set {
                c.magnetism.dks_modes
            } else {
                sub
            };
            &&& only_table_changes(board, after, table)
            &&& payload.len() == 1 ==> (after.tables)(table) == overwritten(
                (board.tables)(table),
                key as int,
                payload,
            )
            &&& payload.len() == 2 ==> (after.tables)(table) == overwritten(
                (board.tables)(table),
                2 * key,
                payload,
            )
            &&& payload.len() == 4 ==> (after.tables)(table) == overwritten(
                (board.tables)(table),
                4 * key,
                payload,
            )
        }),
{
    let q = key_write(c, sub, key, is_final, payload);
    let n = payload.len();
    assert(q->Raw_0.data.skip(7) =~= payload);
    assert(n == 1 ==> key * n == key) by (nonlinear_arith);
    assert(n == 2 ==> key * n == 2 * key) by (nonlinear_arith);
    assert(n == 4 ==> key * n == 4 * key) by (nonlinear_arith);
}

/// One write and nothing else.
proof fn lemma_one_write(board: Board, c: CommandTable, q: RequestView)
    ensures
        board.after_all(c, seq![q]) == board.after(c, q),
{
    reveal_with_fuel(Board::after_all, 2);
    assert(seq![q].drop_last() =~= Seq::<RequestView>::empty());
}

/// Two writes, one after the other.
proof fn lemma_two_writes(board: Board, c: CommandTable, q: RequestView, r: RequestView)
    ensures
        board.after_all(c, seq![q, r]) == board.after(c, q).after(c, r),
{
    reveal_with_fuel(Board::after_all, 3);
    assert(seq![q, r].drop_last() =~= seq![q]);
    lemma_one_write(board, c, q);
}

/// Setting one key's trigger stores its actuation point, its release point and its mode
/// byte in the tables of their names, and leaves every other key and every other table
/// alone.
#[verifier::spinoff_prover]
pub proof fn set_key_trigger_stores_it(
    kb: &KeyboardInterface,
    settings: &KeyTriggerSettings,
    board: Board,
    given: Seq<&[Reply]>,
    steps: Seq<Step<()>>,
    replies: Seq<Reply>,
    other: u8,
)
    requires
        kb.has_magnetism,
        board.full(),
        tables_apart(kb.commands.magnetism),
        given.len() == steps.len(),
        goes_through(steps, replies),
        forall|m: int|
            0 <= m < steps.len() ==> (#[trigger] given[m])@ == replies.take(m) && call_ensures(
                KeyboardInterface::set_key_trigger,
                (kb, settings, given[m]),
                steps[m],
            ),
        settings.mode.code < 128,
    ensures
        steps.last() == Step::<()>::Done(Ok(())),
        ({
            let after = board.after_all(kb.commands, asked_for(steps));
            let t = kb.commands.magnetism;
            let k = settings.key_index as int;
            let o = other as int;
            &&& word_stored((after.tables)(t.press_travel), k) == settings.actuation
            &&& word_stored((after.tables)(t.lift_travel), k) == settings.deactuation
            &&& (after.tables)(t.key_mode)[k] == settings.mode.code + (if settings.rapid_trigger {
                128int
            } else {
                0
            })
            &&& o != k ==> {
                &&& word_stored((after.tables)(t.press_travel), o) == word_stored(
                    (board.tables)(t.press_travel),
                    o,
                )
                &&& word_stored((after.tables)(t.lift_travel), o) == word_stored(
                    (board.tables)(t.lift_travel),
                    o,
                )
                &&& (after.tables)(t.key_mode)[o] == (board.tables)(t.key_mode)[o]
            }
            &&& forall|s: u8|
                s != t.press_travel && s != t.lift_travel && s != t.key_mode ==> #[trigger] (
                after.tables)(s) == (board.tables)(s)
            &&& after.layers == board.layers
        }),
{
    let c = kb.commands;
    let list = crate::triggers::trigger_writes(c, *settings);
    assert forall|m: int| 0 <= m < steps.len() implies (#[trigger] steps[m])@ == sent(
        seen(replies.take(m)),
        list,
    ) by {
        assert(given[m]@ == replies.take(m));
    }
    lemma_sent_run(list, steps, replies);
    lemma_tables_apart(c.magnetism);
    let t = c.magnetism;
    let k = settings.key_index;
    let one = board.after(c, list[0]);
    let two = one.after(c, list[1]);
    let three = two.after(c, list[2]);
    reveal_with_fuel(Board::after_all, 2);
    lemma_two_writes(board, c, list[0], list[1]);
    assert(list.drop_last() =~= seq![list[0], list[1]]);
    assert(board.after_all(c, list) == three);
    lemma_entry_written(board, c, t.press_travel, k, false, crate::bits::le_bytes(settings.actuation));
    lemma_entry_written(one, c, t.lift_travel, k, false, crate::bits::le_bytes(settings.deactuation));
    let mode = crate::magnetism::ModeByte {
        base: settings.mode,
        rapid_trigger: settings.rapid_trigger,
    };
    lemma_entry_written(two, c, t.key_mode, k, true, seq![mode.encoded()]);
    assert((board.tables)(t.press_travel).len() >= 512);
    assert((board.tables)(t.lift_travel).len() >= 512);
    assert((board.tables)(t.key_mode).len() >= 512);
    assert((one.tables)(t.lift_travel) == (board.tables)(t.lift_travel));
    assert((two.tables)(t.key_mode) == (board.tables)(t.key_mode));
    assert((three.tables)(t.press_travel) == (one.tables)(t.press_travel));
    assert((three.tables)(t.lift_travel) == (two.tables)(t.lift_travel));
}

} // verus!
