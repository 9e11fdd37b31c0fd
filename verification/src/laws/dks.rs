//! What Dynamic Keystroke settings promise: they are read from and written to their own
//! tables and layers.

use crate::bindings::keymatrix_pages;
use crate::exchange::{
    seen, sent_from, walk_asks_in_order, PartView, Reply, ReplyView, Step, StepView,
};
use crate::keyboard::KeyboardInterface;
use crate::laws::bindings::key_bytes;
use crate::laws::board::{lemma_told, page_of, profile_number, Board};
use crate::laws::loading::{tells_store, travel_pages};
use crate::laws::triggers::{lemma_triggers_told, tells_triggers, word_stored};
use crate::magnetism::{resolve_slot0, DksConfig, KeyTriggerSettings, ModeByte, TriggerSettings};
use crate::protocol::{KeymatrixLayer, Profile, RequestView};
use crate::triggers::{
    dks_read, dks_slot_writes, dks_table_writes, dks_trigger, pages_of, slots_read, table_pages,
    triggers_read,
};
use vstd::prelude::*;

verus! {

/// Whether replies are what a keyboard answers to a read of Dynamic Keystroke settings: the
/// travels, the packed bytes, and the four layers of a profile.
pub open spec fn tells_dks(
    board: Board,
    kb: KeyboardInterface,
    r: Seq<ReplyView>,
) -> bool {
    let m = kb.commands.magnetism;
    let p = profile_number(kb.active_profile);
    let w = travel_pages(kb.key_count) as int;
    &&& tells_store(r, 0, w as nat, (board.tables)(m.dks_travel))
    &&& tells_store(r, w, 8, (board.tables)(m.dks_modes))
    &&& tells_store(r, w + 8, 8, (board.layers)(p, 0))
    &&& tells_store(r, w + 16, 8, (board.layers)(p, 1))
    &&& tells_store(r, w + 24, 8, (board.layers)(p, 2))
    &&& tells_store(r, w + 32, 8, (board.layers)(p, 3))
}

/// A block of pages that were told is the start of their store.
proof fn lemma_store_told(list: Seq<RequestView>, r: Seq<ReplyView>, at: nat, store: Seq<u8>)
    requires
        list.len() <= 8,
        store.len() >= 512,
        tells_store(r, at as int, list.len(), store),
    ensures
        crate::exchange::block(list, r, at) == (PartView::Found {
            value: store.take(64 * list.len() as int),
            next: at + list.len(),
        }),
{
    assert forall|i: int| 0 <= i < list.len() implies #[trigger] r[at + i] == Ok::<
        Seq<u8>,
        crate::error::ErrorView,
    >(page_of(store, i as u8)) by {
        assert(r[at as int + i] == Ok::<Seq<u8>, crate::error::ErrorView>(
            page_of(store, i as u8),
        ));
    }
    lemma_told(list, r, at, store);
}

/// The config of a key on a layer that was told.
proof fn lemma_config_told(
    cmd: u8,
    profile: Profile,
    layer: KeymatrixLayer,
    key: u8,
    r: Seq<ReplyView>,
    at: nat,
    store: Seq<u8>,
)
    requires
        key < 128,
        store.len() >= 512,
        tells_store(r, at as int, 8, store),
    ensures
        crate::bindings::config_read(cmd, profile, layer, key, r, at) == (PartView::Found {
            value: key_bytes(store, key),
            next: at + 8,
        }),
{
    lemma_store_told(keymatrix_pages(cmd, profile, layer, 8), r, at, store);
    assert(store.take(512).subrange(key * 4, key * 4 + 4) =~= key_bytes(store, key));
}

/// Dynamic Keystroke settings are read from their stores: the travel from the travel table,
/// the packed bytes from their blob, and each slot from the layer of its number, of the
/// active profile.
#[verifier::spinoff_prover]
pub proof fn dks_is_read_from_its_stores(
    kb: &KeyboardInterface,
    key: u8,
    board: Board,
    given: &[Reply],
    step: Step<DksConfig>,
)
    requires
        board.full(),
        key < 128,
        key < kb.key_count,
        tells_dks(board, *kb, seen(given@)),
        call_ensures(KeyboardInterface::get_dks_config, (kb, key, given), step),
    ensures
        ({
            let m = kb.commands.magnetism;
            let p = profile_number(kb.active_profile);
            &&& step matches Step::Done(Ok(d))
            &&& d.trigger_point_travel_raw == word_stored((board.tables)(m.dks_travel), key as int)
            &&& forall|s: int|
                0 <= s < 4 ==> (#[trigger] d.bindings@[s]).modes == (board.tables)(m.dks_modes)[4
                    * key + s]
            &&& d.bindings@[0].config@ == key_bytes((board.layers)(p, 0), key)
            &&& d.bindings@[1].config@ == key_bytes((board.layers)(p, 1), key)
            &&& d.bindings@[2].config@ == key_bytes((board.layers)(p, 2), key)
            &&& d.bindings@[3].config@ == key_bytes((board.layers)(p, 3), key)
        }),
{
    let c = kb.commands;
    let m = c.magnetism;
    let r = seen(given@);
    let pr = kb.active_profile;
    let p = profile_number(pr);
    let w = travel_pages(kb.key_count);
    let (st, sb) = ((board.tables)(m.dks_travel), (board.tables)(m.dks_modes));
    let (s0, s1, s2, s3) = (
        (board.layers)(p, 0),
        (board.layers)(p, 1),
        (board.layers)(p, 2),
        (board.layers)(p, 3),
    );
    assert(st.len() >= 512 && sb.len() >= 512);
    assert(s0.len() >= 512 && s1.len() >= 512 && s2.len() >= 512 && s3.len() >= 512);
    assert(w <= 8 && 2 * kb.key_count <= 64 * w);
    lemma_store_told(table_pages(c, m.dks_travel, w), r, 0, st);
    lemma_store_told(table_pages(c, m.dks_modes, 8), r, w, sb);
    let k = c.get_keymatrix;
    lemma_config_told(k, pr, KeymatrixLayer::Layer0, key, r, w + 8, s0);
    lemma_config_told(k, pr, KeymatrixLayer::Layer1, key, r, w + 16, s1);
    lemma_config_told(k, pr, KeymatrixLayer::Layer2, key, r, w + 24, s2);
    lemma_config_told(k, pr, KeymatrixLayer::Layer3, key, r, w + 32, s3);
    let g0 = Seq::<Seq<u8>>::empty();
    let g1 = g0.push(key_bytes(s0, key));
    let g2 = g1.push(key_bytes(s1, key));
    let g3 = g2.push(key_bytes(s2, key));
    let g4 = g3.push(key_bytes(s3, key));
    reveal_with_fuel(slots_read, 5);
    assert(slots_read(c, pr, key, g4, r, w + 40) == (PartView::Found { value: g4, next: w + 40 }));
    assert(slots_read(c, pr, key, g3, r, w + 32) == slots_read(c, pr, key, g4, r, w + 40));
    assert(slots_read(c, pr, key, g2, r, w + 24) == slots_read(c, pr, key, g3, r, w + 32));
    assert(slots_read(c, pr, key, g1, r, w + 16) == slots_read(c, pr, key, g2, r, w + 24));
    assert(slots_read(c, pr, key, g0, r, w + 8) == slots_read(c, pr, key, g1, r, w + 16));
    let found = dks_read(c, pr, kb.key_count, key, r);
    assert(found is Found);
    assert(step@ is Done);
    let d = step->Done_0->Ok_0;
    assert(d@.configs == g4);
    assert(d@.modes == crate::magnetism::blob_modes(sb.take(512), key as int));
    assert forall|s: int| 0 <= s < 4 implies (#[trigger] d.bindings@[s]).modes == sb[4 * key
        + s] by {
        assert(d@.modes[s] == d.bindings@[s].modes);
        assert(d@.modes[s] == sb.take(512)[key * 4 + s]);
    }
    assert(d@.configs[0] == d.bindings@[0].config@ && d@.configs[1] == d.bindings@[1].config@);
    assert(d@.configs[2] == d.bindings@[2].config@ && d@.configs[3] == d.bindings@[3].config@);
}

/// What sending asks for behind replies that all went through.
proof fn lemma_sent_asks(list: Seq<RequestView>, r: Seq<ReplyView>, at: nat)
    requires
        at <= r.len(),
        forall|i: int| at <= i < r.len() ==> (#[trigger] r[i]) is Ok,
    ensures
        r.len() - at < list.len() ==> sent_from(list, r, at) == PartView::<()>::Ask(
            list[r.len() - at],
        ),
        r.len() - at >= list.len() ==> sent_from(list, r, at) == (PartView::Found {
            value: (),
            next: at + list.len(),
        }),
{
    walk_asks_in_order(list, r, at);
}

/// How many answers the trigger tables take.
pub open spec fn trigger_answers(key_count: u8) -> nat {
    pages_of(key_count as nat) + 6 * pages_of(2 * key_count as nat)
}

/// The payload of a request.
pub open spec fn sends(step: Step<()>, cmd: u8, data: Seq<u8>) -> bool {
    step@ matches StepView::Ask(RequestView::Raw(f)) && f.cmd == cmd && f.data == data
}

/// Making a key a Dynamic Keystroke key first writes its tables, one after the other: its
/// actuation and release points as they were, its mode with the Rapid Trigger flag that was
/// asked for, or else the one it had, its travel, and its packed bytes.
#[verifier::spinoff_prover]
#[verifier::rlimit(40)]
pub proof fn a_dks_key_gets_its_tables(
    kb: &KeyboardInterface,
    key: u8,
    config: &DksConfig,
    rapid: Option<bool>,
    board: Board,
    given: &[Reply],
    step: Step<()>,
)
    requires
        board.full(),
        kb.has_magnetism,
        key < kb.key_count,
        kb.commands.magnetism.dks_mode < 128,
        tells_triggers(board, kb.commands, kb.key_count, seen(given@), 0),
        trigger_answers(kb.key_count) <= given@.len() < trigger_answers(kb.key_count) + 5,
        forall|i: int|
            trigger_answers(kb.key_count) <= i < given@.len() ==> (#[trigger] given@[i]) is Ok,
        call_ensures(KeyboardInterface::set_dks_config, (kb, key, config, rapid, given), step),
    ensures
        ({
            let t = kb.commands.magnetism;
            let k = key as int;
            let j = given@.len() - trigger_answers(kb.key_count);
            let set = kb.commands.set_multi_magnetism;
            let (press, lift) = ((board.tables)(t.press_travel), (board.tables)(t.lift_travel));
            let was = (board.tables)(t.key_mode)[k];
            let rt = match rapid {
                Some(on) => on,
                None => was >= 128,
            };
            let mode = if rt {
                (t.dks_mode + 128) as u8
            } else {
                t.dks_mode
            };
            let travel = config.trigger_point_travel_raw;
            &&& j == 0 ==> sends(
                step,
                set,
                seq![t.press_travel, 0u8, key, 0u8, 0u8, 0u8, 0u8, press[2 * k], press[2 * k + 1]],
            )
            &&& j == 1 ==> sends(
                step,
                set,
                seq![t.lift_travel, 0u8, key, 0u8, 0u8, 0u8, 0u8, lift[2 * k], lift[2 * k + 1]],
            )
            &&& j == 2 ==> sends(
                step,
                set,
                seq![t.key_mode, 0u8, key, 1u8, 0u8, 0u8, 0u8, mode],
            )
            &&& j == 3 ==> sends(
                step,
                set,
                seq![
                    t.dks_travel,
                    0u8,
                    key,
                    0u8,
                    0u8,
                    0u8,
                    0u8,
                    (travel % 256) as u8,
                    (travel / 256) as u8,
                ],
            )
            &&& j == 4 ==> sends(
                step,
                set,
                seq![
                    t.dks_trigger_modes_set,
                    0u8,
                    key,
                    1u8,
                    0u8,
                    0u8,
                    0u8,
                    config.bindings@[0].modes,
                    config.bindings@[1].modes,
                    config.bindings@[2].modes,
                    config.bindings@[3].modes,
                ],
            )
        }),
{
    let c = kb.commands;
    let t = c.magnetism;
    let r = seen(given@);
    let n = trigger_answers(kb.key_count);
    let k = key as int;
    lemma_triggers_told(board, c, kb.key_count, r, 0);
    let part = triggers_read(c, true, kb.key_count, r, 0);
    let all = match part {
        PartView::Found { value, .. } => value,
        _ => arbitrary(),
    };
    assert(part == (PartView::Found { value: all, next: n }));
    let old_key = all.of_key(key);
    let new_key = dks_trigger(c, old_key, rapid);
    let list = dks_table_writes(c, new_key, config@);
    assert forall|i: int| n <= i < r.len() implies (#[trigger] r[i]) is Ok by {
        assert(given@[i] is Ok);
    }
    lemma_sent_asks(list, r, n);
    let j = given@.len() - n;
    assert(list.len() == 5);
    assert(step@ == StepView::<()>::Ask(list[j]));
    let (press, lift) = ((board.tables)(t.press_travel), (board.tables)(t.lift_travel));
    assert(old_key.actuation == press[2 * k] + 256 * press[2 * k + 1]);
    assert(old_key.deactuation == lift[2 * k] + 256 * lift[2 * k + 1]);
    let f = step@->Ask_0->Raw_0.data;
    if j == 0 {
        assert(f =~= seq![
            t.press_travel,
            0u8,
            key,
            0u8,
            0u8,
            0u8,
            0u8,
            press[2 * k],
            press[2 * k + 1],
        ]);
    } else if j == 1 {
        assert(f =~= seq![
            t.lift_travel,
            0u8,
            key,
            0u8,
            0u8,
            0u8,
            0u8,
            lift[2 * k],
            lift[2 * k + 1],
        ]);
    } else if j == 2 {
        let b = (ModeByte { base: new_key.mode, rapid_trigger: new_key.rapid_trigger }).encoded();
        assert(f =~= seq![t.key_mode, 0u8, key, 1u8, 0u8, 0u8, 0u8, b]);
    } else if j == 3 {
        let travel = config.trigger_point_travel_raw;
        assert(f =~= seq![
            t.dks_travel,
            0u8,
            key,
            0u8,
            0u8,
            0u8,
            0u8,
            (travel % 256) as u8,
            (travel / 256) as u8,
        ]);
    } else {
        assert(f =~= seq![
            t.dks_trigger_modes_set,
            0u8,
            key,
            1u8,
            0u8,
            0u8,
            0u8,
            config.bindings@[0].modes,
            config.bindings@[1].modes,
            config.bindings@[2].modes,
            config.bindings@[3].modes,
        ]);
    }
}

/// Whether a step binds a key on a keymatrix layer.
pub open spec fn binds(
    step: Step<()>,
    profile: Profile,
    layer: KeymatrixLayer,
    key: u8,
    config: Seq<u8>,
    save: bool,
) -> bool {
    step@ matches StepView::Ask(
        RequestView::KeyMatrix { profile: p, key_index, layer: l, config: b, commit, .. },
    ) && p == profile && key_index == key && l == layer && b == config && commit == save
}

/// Making a key a Dynamic Keystroke key then writes its four slots to the layers of their
/// number, of the active profile, and saves with the last; a first slot that is left empty
/// keeps what the key types.
#[verifier::spinoff_prover]
#[verifier::rlimit(40)]
pub proof fn a_dks_key_gets_its_slots(
    kb: &KeyboardInterface,
    key: u8,
    config: &DksConfig,
    rapid: Option<bool>,
    board: Board,
    given: &[Reply],
    step: Step<()>,
)
    requires
        board.full(),
        kb.has_magnetism,
        key < kb.key_count,
        key < 128,
        tells_triggers(board, kb.commands, kb.key_count, seen(given@), 0),
        forall|i: int|
            trigger_answers(kb.key_count) <= i < given@.len() ==> (#[trigger] given@[i]) is Ok,
        tells_store(
            seen(given@),
            trigger_answers(kb.key_count) as int + 5,
            8,
            (board.layers)(profile_number(kb.active_profile), 0),
        ),
        given@.len() <= trigger_answers(kb.key_count) + 17,
        call_ensures(KeyboardInterface::set_dks_config, (kb, key, config, rapid, given), step),
    ensures
        ({
            let j = given@.len() - trigger_answers(kb.key_count) - 13;
            let p = kb.active_profile;
            let b = config.bindings@;
            let empty = b[0].config@ == seq![0u8, 0u8, 0u8, 0u8];
            let now = key_bytes((board.layers)(profile_number(p), 0), key);
            &&& j == 0 && empty ==> binds(step, p, KeymatrixLayer::Layer0, key, now, false)
            &&& j == 0 && !empty ==> binds(
                step,
                p,
                KeymatrixLayer::Layer0,
                key,
                b[0].config@,
                false,
            )
            &&& j == 1 ==> binds(step, p, KeymatrixLayer::Layer1, key, b[1].config@, false)
            &&& j == 2 ==> binds(step, p, KeymatrixLayer::Layer2, key, b[2].config@, false)
            &&& j == 3 ==> binds(step, p, KeymatrixLayer::Layer3, key, b[3].config@, true)
            &&& j == 4 ==> step@ == StepView::<()>::Done(Ok(()))
        }),
{
    let c = kb.commands;
    let r = seen(given@);
    let n = trigger_answers(kb.key_count);
    let pr = kb.active_profile;
    lemma_triggers_told(board, c, kb.key_count, r, 0);
    let part = triggers_read(c, true, kb.key_count, r, 0);
    let all = match part {
        PartView::Found { value, .. } => value,
        _ => arbitrary(),
    };
    assert(part == (PartView::Found { value: all, next: n }));
    let list = dks_table_writes(c, dks_trigger(c, all.of_key(key), rapid), config@);
    assert forall|i: int| n <= i < r.len() implies (#[trigger] r[i]) is Ok by {
        assert(given@[i] is Ok);
    }
    lemma_sent_asks(list, r, n);
    assert(list.len() == 5);
    let store = (board.layers)(profile_number(pr), 0);
    assert(store.len() >= 512);
    lemma_config_told(c.get_keymatrix, pr, KeymatrixLayer::Layer0, key, r, n + 5, store);
    let now = key_bytes(store, key);
    let slots = dks_slot_writes(pr, key, config@.configs, now);
    lemma_sent_asks(slots, r, n + 13);
    assert(config@.configs[0] == config.bindings@[0].config@);
    assert(config@.configs[1] == config.bindings@[1].config@);
    assert(config@.configs[2] == config.bindings@[2].config@);
    assert(config@.configs[3] == config.bindings@[3].config@);
}

/// A first slot that is left empty keeps what the key types; any other is taken as it is.
pub proof fn an_empty_slot_keeps_the_key(requested: [u8; 4], current: [u8; 4], r: [u8; 4])
    requires
        call_ensures(resolve_slot0, (requested, current), r),
    ensures
        requested@[0] == 0 && requested@[1] == 0 && requested@[2] == 0 && requested@[3] == 0 ==> r@
            == current@,
        requested@[0] != 0 || requested@[1] != 0 || requested@[2] != 0 || requested@[3] != 0 ==> r@
            == requested@,
{
    let zeros = seq![0u8, 0u8, 0u8, 0u8];
    assert((requested@ == zeros) == (requested@ =~= zeros));
}

/// The settings of one key are those of its place in each table.
pub proof fn one_keys_settings_are_picked(
    t: &TriggerSettings,
    key: u8,
    r: KeyTriggerSettings,
)
    requires
        key < t.press_travel@.len(),
        key < t.lift_travel@.len(),
        key < t.key_modes@.len(),
        call_ensures(TriggerSettings::key, (t, key), r),
    ensures
        r.key_index == key,
        r.actuation == t.press_travel@[key as int],
        r.deactuation == t.lift_travel@[key as int],
        r.mode.code == t.key_modes@[key as int] % 128,
        r.rapid_trigger == (t.key_modes@[key as int] >= 128),
{
}

/// The mode and the Rapid Trigger flag share a byte, and neither touches the other.
pub proof fn mode_bytes_hold_mode_and_flag(
    b: u8,
    m: ModeByte,
    back: u8,
    enable: bool,
    changed: u8,
)
    requires
        call_ensures(ModeByte::from_u8, (b,), m),
        call_ensures(ModeByte::to_u8, (&m,), back),
        call_ensures(crate::magnetism::set_rapid_trigger, (b, enable), changed),
    ensures
        m.base.code == b % 128,
        m.rapid_trigger == (b >= 128),
        back == b,
        changed % 128 == b % 128,
        (changed >= 128) == enable,
{
}

/// Dynamic Keystroke settings are put together slot by slot.
pub proof fn dks_parts_keep_their_slot(
    travel: u16,
    modes: [u8; 4],
    configs: [[u8; 4]; 4],
    d: DksConfig,
    back: [u8; 4],
    blob: &[u8],
    idx: usize,
    packed: [u8; 4],
    s: int,
)
    requires
        0 <= s < 4,
        call_ensures(DksConfig::from_parts, (travel, modes, configs), d),
        call_ensures(DksConfig::trigger_modes, (&d,), back),
        call_ensures(DksConfig::trigger_modes_from_blob, (blob, idx), packed),
    ensures
        d.trigger_point_travel_raw == travel,
        d.bindings@[s].modes == modes@[s],
        d.bindings@[s].config == configs@[s],
        back@[s] == modes@[s],
        4 * idx + 4 <= blob@.len() ==> packed@[s] == blob@[4 * idx + s],
        4 * idx + 4 > blob@.len() ==> packed@[s] == 0,
{
    assert(d.modes()[s] == modes@[s]);
}

} // verus!
