//! What loading the rows of all keys promises.

use crate::bindings::{fn_pages, keymatrix_pages};
use crate::error::ErrorView;
use crate::exchange::{block, seen, PartView, Reply, ReplyView};
use crate::keyboard::KeyboardInterface;
use crate::keymap::{
    layers_read, load_key_rows, modes_load, row_views, rows_are_the_positions_in_use, rows_load,
    triggers_load, KeyRow, KeyTables, Loading, LoadingView, RawView,
};
use crate::laws::bindings::key_bytes;
use crate::laws::board::{
    layer_number, lemma_block_asks, lemma_told, page_of, profile_number, tells_reads_apart, Board,
};
use crate::laws::triggers::{
    lemma_triggers_ask_flat, lemma_triggers_told, tells_triggers, trigger_requests, word_stored,
};
use crate::macros::page_count;
use crate::magnetism::TriggerView;
use crate::protocol::{CommandTable, KeymatrixLayer, Profile, RequestView};
use crate::triggers::{pages_of, table_pages};
use vstd::prelude::*;

verus! {

/// Whether replies from a place on are the first pages of a store.
pub open spec fn tells_store(r: Seq<ReplyView>, at: int, pages: nat, store: Seq<u8>) -> bool {
    &&& at + pages <= r.len()
    &&& forall|i: int|
        0 <= i < pages ==> #[trigger] r[at + i] == Ok::<Seq<u8>, ErrorView>(
            page_of(store, i as u8),
        )
}

/// How many pages hold the Dynamic Keystroke travels.
pub open spec fn travel_pages(key_count: u8) -> nat {
    page_count(key_count as nat, 32)
}

/// Where the tables of special modes start: behind the layers, the Fn table and the trigger
/// tables.
pub open spec fn modes_start(key_count: u8) -> nat {
    40 + pages_of(key_count as nat) + 6 * pages_of(2 * key_count as nat)
}

/// Whether replies are what a keyboard answers to a load: four layers of the active
/// profile, the Fn table of the system, the trigger tables, and the tables of special
/// modes.
pub open spec fn tells_all(
    board: Board,
    kb: KeyboardInterface,
    sys: u8,
    r: Seq<ReplyView>,
) -> bool {
    let p = profile_number(kb.active_profile);
    let m = kb.commands.magnetism;
    let n = kb.key_count;
    let a = modes_start(n) as int;
    let b = a + travel_pages(n);
    let d = b + 8;
    let e = d + pages_of(n as nat);
    &&& tells_store(r, 0, 8, (board.layers)(p, 0))
    &&& tells_store(r, 8, 8, (board.layers)(p, 1))
    &&& tells_store(r, 16, 8, (board.layers)(p, 2))
    &&& tells_store(r, 24, 8, (board.layers)(p, 3))
    &&& tells_store(r, 32, 8, (board.fn_tables)(sys, p))
    &&& tells_triggers(board, kb.commands, n, r, 40)
    &&& tells_store(r, a, travel_pages(n), (board.tables)(m.dks_travel))
    &&& tells_store(r, b, 8, (board.tables)(m.dks_modes))
    &&& tells_store(r, d, pages_of(n as nat), (board.tables)(m.modtap_time))
    &&& tells_store(r, e, pages_of(n as nat), (board.tables)(m.snaptap_enable))
}

/// A block of pages that were told is the start of their store.
proof fn lemma_store_told(list: Seq<RequestView>, r: Seq<ReplyView>, at: nat, store: Seq<u8>)
    requires
        list.len() <= 8,
        store.len() >= 512,
        tells_store(r, at as int, list.len(), store),
    ensures
        block(list, r, at) == (PartView::Found {
            value: store.take(64 * list.len() as int),
            next: at + list.len(),
        }),
{
    assert forall|i: int| 0 <= i < list.len() implies #[trigger] r[at + i] == Ok::<
        Seq<u8>,
        ErrorView,
    >(page_of(store, i as u8)) by {
        assert(r[at as int + i] == Ok::<Seq<u8>, ErrorView>(page_of(store, i as u8)));
    }
    lemma_told(list, r, at, store);
}

/// The four layers, once they were told.
pub open spec fn layer_stores(board: Board, profile: Profile) -> Seq<Seq<u8>> {
    let p = profile_number(profile);
    seq![
        (board.layers)(p, 0).take(512),
        (board.layers)(p, 1).take(512),
        (board.layers)(p, 2).take(512),
        (board.layers)(p, 3).take(512),
    ]
}

/// What reading the layers comes to once they were told.
proof fn lemma_layers_told(
    board: Board,
    c: CommandTable,
    profile: Profile,
    r: Seq<ReplyView>,
)
    requires
        board.full(),
        forall|l: int|
            #![trigger (board.layers)(profile_number(profile), l as u8)]
            0 <= l < 4 ==> tells_store(
                r,
                8 * l,
                8,
                (board.layers)(profile_number(profile), l as u8),
            ),
    ensures
        layers_read(c, profile, Seq::empty(), r, 0) == (PartView::Found {
            value: layer_stores(board, profile),
            next: 32,
        }),
{
    let p = profile_number(profile);
    let (s0, s1, s2, s3) = (
        (board.layers)(p, 0),
        (board.layers)(p, 1),
        (board.layers)(p, 2),
        (board.layers)(p, 3),
    );
    assert(s0.len() >= 512 && s1.len() >= 512 && s2.len() >= 512 && s3.len() >= 512);
    assert(s0 == (board.layers)(p, 0int as u8) && s1 == (board.layers)(p, 1int as u8));
    assert(s2 == (board.layers)(p, 2int as u8) && s3 == (board.layers)(p, 3int as u8));
    let k = c.get_keymatrix;
    lemma_store_told(keymatrix_pages(k, profile, KeymatrixLayer::Layer0, 8), r, 0, s0);
    lemma_store_told(keymatrix_pages(k, profile, KeymatrixLayer::Layer1, 8), r, 8, s1);
    lemma_store_told(keymatrix_pages(k, profile, KeymatrixLayer::Layer2, 8), r, 16, s2);
    lemma_store_told(keymatrix_pages(k, profile, KeymatrixLayer::Layer3, 8), r, 24, s3);
    let g0 = Seq::<Seq<u8>>::empty();
    let g1 = g0.push(s0.take(512));
    let g2 = g1.push(s1.take(512));
    let g3 = g2.push(s2.take(512));
    let g4 = g3.push(s3.take(512));
    reveal_with_fuel(layers_read, 5);
    assert(layers_read(c, profile, g4, r, 32) == (PartView::Found { value: g4, next: 32 }));
    assert(layers_read(c, profile, g3, r, 24) == layers_read(c, profile, g4, r, 32));
    assert(layers_read(c, profile, g2, r, 16) == layers_read(c, profile, g3, r, 24));
    assert(layers_read(c, profile, g1, r, 8) == layers_read(c, profile, g2, r, 16));
    assert(layers_read(c, profile, g0, r, 0) == layers_read(c, profile, g1, r, 8));
    assert(g4 =~= layer_stores(board, profile));
}

/// Everything that a load finds, once it was told.
pub open spec fn found_by_load(
    board: Board,
    kb: KeyboardInterface,
    tables: KeyTables,
    sys: u8,
    t: TriggerView,
    raw: RawView,
) -> bool {
    let p = profile_number(kb.active_profile);
    let m = kb.commands.magnetism;
    let n = kb.key_count as int;
    &&& raw.key_count == 126
    &&& raw.layers == layer_stores(board, kb.active_profile)
    &&& raw.fn_layer == Some((board.fn_tables)(sys, p).take(512))
    &&& raw.triggers == t
    &&& raw.dks_travels.len() == n
    &&& forall|i: int|
        0 <= i < n ==> #[trigger] raw.dks_travels[i] == word_stored(
            (board.tables)(m.dks_travel),
            i,
        )
    &&& raw.dks_blob == (board.tables)(m.dks_modes).take(512)
    &&& raw.modtap.len() == n
    &&& forall|i: int|
        0 <= i < n ==> #[trigger] raw.modtap[i] == 10 * (board.tables)(m.modtap_time)[i]
    &&& raw.snaptap.len() == n
    &&& forall|i: int|
        0 <= i < n ==> #[trigger] raw.snaptap[i] == (board.tables)(m.snaptap_enable)[i]
}

/// What the tables of special modes come to once they were told.
#[verifier::spinoff_prover]
proof fn lemma_modes_told(
    board: Board,
    kb: KeyboardInterface,
    tables: KeyTables,
    sys: u8,
    t: TriggerView,
    r: Seq<ReplyView>,
) -> (raw: RawView)
    requires
        board.full(),
        tells_all(board, kb, sys, r),
    ensures
        found_by_load(board, kb, tables, sys, t, raw),
        modes_load(
            kb,
            tables,
            layer_stores(board, kb.active_profile),
            Some((board.fn_tables)(sys, profile_number(kb.active_profile)).take(512)),
            t,
            r,
            modes_start(kb.key_count),
        ) == (LoadingView::Done { stage: 6, result: Ok(raw.rows(126)) }),
{
    let c = kb.commands;
    let m = c.magnetism;
    let n = kb.key_count;
    let a = modes_start(n);
    let w = travel_pages(n);
    let b = a + w;
    let d = b + 8;
    let p0 = pages_of(n as nat);
    let e = d + p0;
    let (st, sb, sm, ss) = (
        (board.tables)(m.dks_travel),
        (board.tables)(m.dks_modes),
        (board.tables)(m.modtap_time),
        (board.tables)(m.snaptap_enable),
    );
    assert(st.len() >= 512 && sb.len() >= 512 && sm.len() >= 512 && ss.len() >= 512);
    assert(w <= 8 && p0 <= 4 && 2 * n <= 64 * w && n <= 64 * p0);
    lemma_store_told(table_pages(c, m.dks_travel, w), r, a, st);
    lemma_store_told(table_pages(c, m.dks_modes, 8), r, b, sb);
    lemma_store_told(table_pages(c, m.modtap_time, p0), r, d, sm);
    lemma_store_told(table_pages(c, m.snaptap_enable, p0), r, e, ss);
    let layers = layer_stores(board, kb.active_profile);
    let fn_layer = Some((board.fn_tables)(sys, profile_number(kb.active_profile)).take(512));
    let raw = RawView {
        key_count: 126,
        names: Seq::new(126, |i: int| crate::keymap::shown_name(kb, tables, i)),
        defaults: Seq::new(
            126,
            |i: int|
                crate::keymap::device_default(
                    kb,
                    tables,
                    crate::protocol::MatrixPos { pos: i as u8 },
                ),
        ),
        layers,
        fn_layer,
        triggers: t,
        dks_travels: crate::magnetism::words_padded(st.take(64 * w as int), n as nat),
        dks_blob: sb.take(512),
        modtap: crate::triggers::modtap_times(sm.take(64 * p0 as int), n),
        snaptap: crate::triggers::up_to(ss.take(64 * p0 as int), n as nat),
    };
    raw
}

/// The result of a load.
pub open spec fn loaded(r: Loading) -> Seq<KeyRow> {
    match r {
        Loading::Done { result: Ok(rows), .. } => rows@,
        _ => Seq::empty(),
    }
}

/// Whether a load is over, and found rows.
pub open spec fn succeeds(r: Loading) -> bool {
    r matches Loading::Done { result: Ok(_), .. }
}

/// A load that was told what the keyboard stores succeeds, and every row shows what the
/// keyboard stores for its position: its bytes on each layer of the active profile and in
/// the Fn table of the system, and its entry in each trigger table and in each table of a
/// special mode.
#[verifier::spinoff_prover]
#[verifier::rlimit(40)]
pub proof fn loaded_rows_show_the_keyboard(
    kb: &KeyboardInterface,
    tables: &KeyTables,
    sys: u8,
    board: Board,
    given: &[Reply],
    r: Loading,
    k: int,
)
    requires
        board.full(),
        kb.has_magnetism,
        tells_all(board, *kb, sys, seen(given@)),
        call_ensures(load_key_rows, (kb, tables, sys, given), r),
        0 <= k < loaded(r).len(),
    ensures
        succeeds(r),
        ({
            let row = loaded(r)[k];
            let i = row.index.pos as int;
            let p = profile_number(kb.active_profile);
            let m = kb.commands.magnetism;
            let own = i < kb.key_count;
            &&& i < 126
            &&& row.raw@[0]@ == key_bytes((board.layers)(p, 0), i as u8)
            &&& row.raw@[1]@ == key_bytes((board.layers)(p, 1), i as u8)
            &&& row.raw@[2]@ == key_bytes((board.layers)(p, 2), i as u8)
            &&& row.raw@[3]@ == key_bytes((board.layers)(p, 3), i as u8)
            &&& row.fn_raw is Some
            &&& row.fn_raw->0@ == key_bytes((board.fn_tables)(sys, p), i as u8)
            &&& own ==> row.actuation == word_stored((board.tables)(m.press_travel), i)
            &&& own ==> row.release == word_stored((board.tables)(m.lift_travel), i)
            &&& own ==> row.rt_press == word_stored((board.tables)(m.rt_press), i)
            &&& own ==> row.rt_lift == word_stored((board.tables)(m.rt_lift), i)
            &&& own ==> row.bottom_dz == word_stored((board.tables)(m.bottom_deadzone), i)
            &&& own ==> row.top_dz == word_stored((board.tables)(m.top_deadzone), i)
            &&& own ==> row.dks_travel == word_stored((board.tables)(m.dks_travel), i)
            &&& own ==> row.modtap_ms == 10 * (board.tables)(m.modtap_time)[i]
            &&& row.dks_modes@ == key_bytes((board.tables)(m.dks_modes), i as u8)
            &&& own ==> row.mode.code == (board.tables)(m.key_mode)[i] % 128
            &&& own ==> row.rapid_trigger == ((board.tables)(m.key_mode)[i] >= 128)
            &&& row.snaptap_partner is Some ==> own && row.snaptap_partner->0 == (board.tables)(
                m.snaptap_enable,
            )[i]
            &&& own && (board.tables)(m.snaptap_enable)[i] < 126 ==> row.snaptap_partner is Some
        }),
{
    let all = seen(given@);
    let c = kb.commands;
    let p = profile_number(kb.active_profile);
    assert forall|l: int|
        #![trigger (board.layers)(p, l as u8)]
        0 <= l < 4 implies tells_store(all, 8 * l, 8, (board.layers)(p, l as u8)) by {
        assert(l == 0 || l == 1 || l == 2 || l == 3);
    }
    lemma_layers_told(board, c, kb.active_profile, all);
    let fs = (board.fn_tables)(sys, p);
    assert(fs.len() >= 512);
    lemma_store_told(fn_pages(c.get_fn, sys, kb.active_profile, 8), all, 32, fs);
    lemma_triggers_told(board, c, kb.key_count, all, 40);
    let part = crate::triggers::triggers_read(c, true, kb.key_count, all, 40);
    let t = match part {
        PartView::Found { value, .. } => value,
        _ => arbitrary(),
    };
    assert(part == (PartView::Found { value: t, next: modes_start(kb.key_count) }));
    let raw = lemma_modes_told(board, *kb, *tables, sys, t, all);
    let layers = layer_stores(board, kb.active_profile);
    assert(triggers_load(*kb, *tables, layers, Some(fs.take(512)), all, 40)
        == (LoadingView::Done { stage: 6, result: Ok(raw.rows(126)) }));
    assert(rows_load(*kb, *tables, sys, all) == (LoadingView::Done {
        stage: 6,
        result: Ok(raw.rows(126)),
    }));
    assert(r@ == rows_load(*kb, *tables, sys, all));
    assert(succeeds(r));
    rows_are_the_positions_in_use(raw, 126);
    assert(row_views(loaded(r)) == raw.rows(126));
    let row = loaded(r)[k];
    assert(row_views(loaded(r))[k] == row@);
    let i = row.index.pos as int;
    assert(row@ == raw.row(i));
    assert forall|l: int| 0 <= l < 4 implies (#[trigger] row.raw@[l])@ == key_bytes(
        (board.layers)(p, l as u8),
        i as u8,
    ) by {
        assert(row@.raw[l] == raw.bytes(l, i));
        let store = (board.layers)(p, l as u8);
        assert(store.len() >= 512);
        assert(l == 0 || l == 1 || l == 2 || l == 3);
        assert(raw.layers[l] == store.take(512));
        assert(store.take(512).subrange(i * 4, i * 4 + 4) =~= key_bytes(store, i as u8));
        assert(row.raw@[l]@ == row@.raw[l]);
    }
    assert(row.raw@[0]@ == key_bytes((board.layers)(p, 0int as u8), i as u8));
    assert(row.raw@[1]@ == key_bytes((board.layers)(p, 1int as u8), i as u8));
    assert(row.raw@[2]@ == key_bytes((board.layers)(p, 2int as u8), i as u8));
    assert(row.raw@[3]@ == key_bytes((board.layers)(p, 3int as u8), i as u8));
    assert(fs.take(512).subrange(i * 4, i * 4 + 4) =~= key_bytes(fs, i as u8));
    let blob = (board.tables)(c.magnetism.dks_modes);
    assert(blob.len() >= 512);
    assert(row.dks_modes@ == crate::magnetism::blob_modes(blob.take(512), i));
    assert(row.dks_modes@ =~= key_bytes(blob, i as u8));
}

/// The request that a load makes behind `m` answers.
pub open spec fn load_request(kb: KeyboardInterface, sys: u8, m: int) -> RequestView {
    let c = kb.commands;
    let n = kb.key_count;
    let a = modes_start(n) as int;
    let b = a + travel_pages(n);
    let d = b + 8;
    let p0 = pages_of(n as nat);
    let e = d + p0;
    if m < 8 {
        keymatrix_pages(c.get_keymatrix, kb.active_profile, KeymatrixLayer::Layer0, 8)[m]
    } else if m < 16 {
        keymatrix_pages(c.get_keymatrix, kb.active_profile, KeymatrixLayer::Layer1, 8)[m - 8]
    } else if m < 24 {
        keymatrix_pages(c.get_keymatrix, kb.active_profile, KeymatrixLayer::Layer2, 8)[m - 16]
    } else if m < 32 {
        keymatrix_pages(c.get_keymatrix, kb.active_profile, KeymatrixLayer::Layer3, 8)[m - 24]
    } else if m < 40 {
        fn_pages(c.get_fn, sys, kb.active_profile, 8)[m - 32]
    } else if m < a {
        trigger_requests(c, n)[m - 40]
    } else if m < b {
        table_pages(c, c.magnetism.dks_travel, travel_pages(n))[m - a]
    } else if m < d {
        table_pages(c, c.magnetism.dks_modes, 8)[m - b]
    } else if m < e {
        table_pages(c, c.magnetism.modtap_time, p0)[m - d]
    } else {
        table_pages(c, c.magnetism.snaptap_enable, p0)[m - e]
    }
}

/// The start of a store that was told stays told in a longer or a shorter list of replies.
proof fn lemma_store_kept(
    full: Seq<ReplyView>,
    m: int,
    at: int,
    pages: nat,
    store: Seq<u8>,
)
    requires
        0 <= at,
        tells_store(full, at, pages, store),
        at + pages <= m <= full.len(),
    ensures
        tells_store(full.take(m), at, pages, store),
{
    assert forall|i: int| 0 <= i < pages implies #[trigger] full.take(m)[at + i] == Ok::<
        Seq<u8>,
        ErrorView,
    >(page_of(store, i as u8)) by {
        assert(full[at + i] == Ok::<Seq<u8>, ErrorView>(page_of(store, i as u8)));
    }
}

/// Every reply of a load that was told went through.
#[verifier::spinoff_prover]
proof fn lemma_all_told(board: Board, kb: KeyboardInterface, sys: u8, full: Seq<ReplyView>, i: int)
    requires
        tells_all(board, kb, sys, full),
        0 <= i < modes_start(kb.key_count) + travel_pages(kb.key_count) + 8 + 2 * pages_of(
            kb.key_count as nat,
        ),
    ensures
        full[i] is Ok,
{
    let n = kb.key_count;
    let a = modes_start(n) as int;
    let b = a + travel_pages(n);
    let d = b + 8;
    let p0 = pages_of(n as nat);
    let p = pages_of(2 * n as nat);
    let e = d + p0;
    if i < 8 {
        assert(full[0 + i] is Ok);
    } else if i < 16 {
        assert(full[8 + (i - 8)] is Ok);
    } else if i < 24 {
        assert(full[16 + (i - 16)] is Ok);
    } else if i < 32 {
        assert(full[24 + (i - 24)] is Ok);
    } else if i < 40 {
        assert(full[32 + (i - 32)] is Ok);
    } else if i < 40 + p0 {
        assert(full[40 + (i - 40)] is Ok);
    } else if i < a {
        let k = i - 40 - p0;
        let j = k / p as int;
        let q = k % p as int;
        assert(0 <= j < 6 && k == j * p + q && 0 <= q < p) by (nonlinear_arith)
            requires
                j == k / p as int,
                q == k % p as int,
                0 <= k < 6 * p,
                p > 0,
        ;
        assert(full[40 + p0 + j * p + q] is Ok);
    } else if i < b {
        assert(full[a + (i - a)] is Ok);
    } else if i < d {
        assert(full[b + (i - b)] is Ok);
    } else if i < e {
        assert(full[d + (i - d)] is Ok);
    } else {
        assert(full[e + (i - e)] is Ok);
    }
}

/// Reading the layers asks for their pages in order.
#[verifier::spinoff_prover]
proof fn lemma_layers_ask(
    board: Board,
    kb: KeyboardInterface,
    sys: u8,
    full: Seq<ReplyView>,
    m: int,
)
    requires
        board.full(),
        tells_all(board, kb, sys, full),
        0 <= m < 32,
        m <= full.len(),
    ensures
        layers_read(kb.commands, kb.active_profile, Seq::empty(), full.take(m), 0)
            == PartView::<Seq<Seq<u8>>>::Ask(load_request(kb, sys, m)),
{
    let c = kb.commands;
    let profile = kb.active_profile;
    let pr = profile_number(profile);
    let r = full.take(m);
    let k = c.get_keymatrix;
    let (s0, s1, s2) = ((board.layers)(pr, 0), (board.layers)(pr, 1), (board.layers)(pr, 2));
    assert(s0.len() >= 512 && s1.len() >= 512 && s2.len() >= 512);
    assert forall|i: int| 0 <= i < r.len() implies (#[trigger] r[i]) is Ok by {
        lemma_all_told(board, kb, sys, full, i);
    }
    let (k0, k1, k2, k3) = (
        keymatrix_pages(k, profile, KeymatrixLayer::Layer0, 8),
        keymatrix_pages(k, profile, KeymatrixLayer::Layer1, 8),
        keymatrix_pages(k, profile, KeymatrixLayer::Layer2, 8),
        keymatrix_pages(k, profile, KeymatrixLayer::Layer3, 8),
    );
    let g0 = Seq::<Seq<u8>>::empty();
    let g1 = g0.push(s0.take(512));
    let g2 = g1.push(s1.take(512));
    let g3 = g2.push(s2.take(512));
    reveal_with_fuel(layers_read, 5);
    let ask = PartView::<Seq<Seq<u8>>>::Ask(load_request(kb, sys, m));
    if m >= 8 {
        lemma_store_kept(full, m, 0, 8, s0);
        lemma_store_told(k0, r, 0, s0);
        assert(layers_read(c, profile, g0, r, 0) == layers_read(c, profile, g1, r, 8));
    } else {
        lemma_block_asks(k0, r, 0);
        assert(layers_read(c, profile, g0, r, 0) == ask);
    }
    if m >= 16 {
        lemma_store_kept(full, m, 8, 8, s1);
        lemma_store_told(k1, r, 8, s1);
        assert(layers_read(c, profile, g1, r, 8) == layers_read(c, profile, g2, r, 16));
    } else if m >= 8 {
        lemma_block_asks(k1, r, 8);
        assert(layers_read(c, profile, g1, r, 8) == ask);
    }
    if m >= 24 {
        lemma_store_kept(full, m, 16, 8, s2);
        lemma_store_told(k2, r, 16, s2);
        assert(layers_read(c, profile, g2, r, 16) == layers_read(c, profile, g3, r, 24));
        lemma_block_asks(k3, r, 24);
        assert(layers_read(c, profile, g3, r, 24) == ask);
    } else if m >= 16 {
        lemma_block_asks(k2, r, 16);
        assert(layers_read(c, profile, g2, r, 16) == ask);
    }
}

/// The request that a load asks for.
pub open spec fn load_asks(r: Loading, q: RequestView) -> bool {
    r matches Loading::Ask { request, .. } && request@ == q
}

/// A load asks first for the eight pages of each keymatrix layer of the active profile, in
/// order, and then for those of the Fn table of the system.
#[verifier::spinoff_prover]
pub proof fn a_load_asks_for_bindings_first(
    kb: &KeyboardInterface,
    tables: &KeyTables,
    sys: u8,
    board: Board,
    full: Seq<Reply>,
    given: &[Reply],
    r: Loading,
)
    requires
        board.full(),
        tells_all(board, *kb, sys, seen(full)),
        given@.len() < 40,
        given@ == full.take(given@.len() as int),
        call_ensures(load_key_rows, (kb, tables, sys, given), r),
    ensures
        load_asks(r, load_request(*kb, sys, given@.len() as int)),
{
    let m = given@.len() as int;
    let all = seen(full);
    let g = seen(given@);
    assert(g =~= all.take(m));
    assert(r@ == rows_load(*kb, *tables, sys, g));
    let q = load_request(*kb, sys, m);
    if m < 32 {
        lemma_layers_ask(board, *kb, sys, all, m);
        assert(r@ == (LoadingView::Ask { stage: 0, request: q }));
    } else {
        lemma_bindings_told(board, *kb, sys, all, m);
        assert forall|i: int| 32 <= i < g.len() implies (#[trigger] g[i]) is Ok by {
            lemma_all_told(board, *kb, sys, all, i);
        }
        lemma_block_asks(fn_pages(kb.commands.get_fn, sys, kb.active_profile, 8), g, 32);
        assert(r@ == (LoadingView::Ask { stage: 1, request: q }));
    }
}

/// The layers, once they were told, in a list of replies that goes on.
proof fn lemma_bindings_told(
    board: Board,
    kb: KeyboardInterface,
    sys: u8,
    full: Seq<ReplyView>,
    m: int,
)
    requires
        board.full(),
        tells_all(board, kb, sys, full),
        32 <= m <= full.len(),
    ensures
        layers_read(kb.commands, kb.active_profile, Seq::empty(), full.take(m), 0) == (
        PartView::Found { value: layer_stores(board, kb.active_profile), next: 32 }),
{
    let p = profile_number(kb.active_profile);
    lemma_store_kept(full, m, 0, 8, (board.layers)(p, 0));
    lemma_store_kept(full, m, 8, 8, (board.layers)(p, 1));
    lemma_store_kept(full, m, 16, 8, (board.layers)(p, 2));
    lemma_store_kept(full, m, 24, 8, (board.layers)(p, 3));
    assert forall|l: int|
        #![trigger (board.layers)(p, l as u8)]
        0 <= l < 4 implies tells_store(full.take(m), 8 * l, 8, (board.layers)(p, l as u8)) by {
        assert(l == 0 || l == 1 || l == 2 || l == 3);
    }
    lemma_layers_told(board, kb.commands, kb.active_profile, full.take(m));
}

/// Behind the Fn table a load asks for the pages of the trigger tables, in the order in
/// which they are read alone, and then for those of the tables of special modes: travels,
/// packed bytes, times and partners.
#[verifier::spinoff_prover]
#[verifier::rlimit(60)]
pub proof fn a_load_asks_for_tables_next(
    kb: &KeyboardInterface,
    tables: &KeyTables,
    sys: u8,
    board: Board,
    full: Seq<Reply>,
    given: &[Reply],
    r: Loading,
)
    requires
        board.full(),
        kb.has_magnetism,
        tells_all(board, *kb, sys, seen(full)),
        40 <= given@.len() < modes_start(kb.key_count) + travel_pages(kb.key_count) + 8 + 2
            * pages_of(kb.key_count as nat),
        given@ == full.take(given@.len() as int),
        call_ensures(load_key_rows, (kb, tables, sys, given), r),
    ensures
        load_asks(r, load_request(*kb, sys, given@.len() as int)),
{
    let c = kb.commands;
    let n = kb.key_count;
    let m = given@.len() as int;
    let all = seen(full);
    let g = seen(given@);
    let pr = profile_number(kb.active_profile);
    assert(g =~= all.take(m));
    assert(r@ == rows_load(*kb, *tables, sys, g));
    lemma_bindings_told(board, *kb, sys, all, m);
    let fs = (board.fn_tables)(sys, pr);
    assert(fs.len() >= 512);
    lemma_store_kept(all, m, 32, 8, fs);
    lemma_store_told(fn_pages(c.get_fn, sys, kb.active_profile, 8), g, 32, fs);
    let layers = layer_stores(board, kb.active_profile);
    let fl = Some(fs.take(512));
    assert(r@ == triggers_load(*kb, *tables, layers, fl, g, 40));
    assert forall|i: int| 0 <= i < g.len() implies (#[trigger] g[i]) is Ok by {
        lemma_all_told(board, *kb, sys, all, i);
    }
    lemma_triggers_ask_flat(c, n, g, 40);
    let q = load_request(*kb, sys, m);
    let a = modes_start(n);
    if m < a {
        assert(r@ == (LoadingView::Ask { stage: 2, request: q }));
    } else {
        let part = crate::triggers::triggers_read(c, true, n, g, 40);
        let t = match part {
            PartView::Found { value, .. } => value,
            _ => arbitrary(),
        };
        assert(part == (PartView::Found { value: t, next: a }));
        assert(r@ == modes_load(*kb, *tables, layers, fl, t, g, a));
        lemma_modes_ask(board, *kb, *tables, sys, layers, fl, t, all, m);
    }
}

/// Reading the tables of special modes asks for their pages in order.
#[verifier::spinoff_prover]
proof fn lemma_modes_ask(
    board: Board,
    kb: KeyboardInterface,
    tables: KeyTables,
    sys: u8,
    layers: Seq<Seq<u8>>,
    fl: Option<Seq<u8>>,
    t: TriggerView,
    full: Seq<ReplyView>,
    m: int,
)
    requires
        board.full(),
        tells_all(board, kb, sys, full),
        modes_start(kb.key_count) <= m < modes_start(kb.key_count) + travel_pages(kb.key_count) + 8
            + 2 * pages_of(kb.key_count as nat),
        m <= full.len(),
    ensures
        modes_load(kb, tables, layers, fl, t, full.take(m), modes_start(kb.key_count)) matches
            LoadingView::Ask { request, .. } && request == load_request(kb, sys, m),
{
    let c = kb.commands;
    let g = c.magnetism;
    let n = kb.key_count;
    let a = modes_start(n);
    let w = travel_pages(n);
    let b = a + w;
    let d = b + 8;
    let p0 = pages_of(n as nat);
    let e = d + p0;
    let r = full.take(m);
    let (st, sb, sm) = (
        (board.tables)(g.dks_travel),
        (board.tables)(g.dks_modes),
        (board.tables)(g.modtap_time),
    );
    assert(st.len() >= 512 && sb.len() >= 512 && sm.len() >= 512);
    assert(w <= 8 && p0 <= 4);
    assert forall|i: int| 0 <= i < r.len() implies (#[trigger] r[i]) is Ok by {
        lemma_all_told(board, kb, sys, full, i);
    }
    lemma_block_asks(table_pages(c, g.dks_travel, w), r, a);
    if m >= b {
        lemma_store_kept(full, m, a as int, w, st);
        lemma_store_told(table_pages(c, g.dks_travel, w), r, a, st);
        lemma_block_asks(table_pages(c, g.dks_modes, 8), r, b);
        if m >= d {
            lemma_store_kept(full, m, b as int, 8, sb);
            lemma_store_told(table_pages(c, g.dks_modes, 8), r, b, sb);
            lemma_block_asks(table_pages(c, g.modtap_time, p0), r, d);
            if m >= e {
                lemma_store_kept(full, m, d as int, p0, sm);
                lemma_store_told(table_pages(c, g.modtap_time, p0), r, d, sm);
                lemma_block_asks(table_pages(c, g.snaptap_enable, p0), r, e);
            }
        }
    }
}

/// What a load asks for is answered from the store that it takes the answer for: a page of
/// a trigger table from that table, a page of a layer from that layer of that profile, and a
/// page of the Fn table from that of the system and the profile.
pub proof fn requests_are_answered_from_their_store(
    board: Board,
    c: CommandTable,
    sub: u8,
    profile: Profile,
    layer: KeymatrixLayer,
    sys: u8,
    pages: nat,
    i: int,
)
    requires
        0 <= i < pages,
        pages <= 256,
        tells_reads_apart(c),
    ensures
        board.answer(c, table_pages(c, sub, pages)[i]) == Ok::<Seq<u8>, ErrorView>(
            page_of((board.tables)(sub), i as u8),
        ),
        board.answer(c, keymatrix_pages(c.get_keymatrix, profile, layer, pages)[i]) == Ok::<
            Seq<u8>,
            ErrorView,
        >(page_of((board.layers)(profile_number(profile), layer_number(layer)), i as u8)),
        board.answer(c, fn_pages(c.get_fn, sys, profile, pages)[i]) == Ok::<Seq<u8>, ErrorView>(
            page_of((board.fn_tables)(sys, profile_number(profile)), i as u8),
        ),
{
}

} // verus!
