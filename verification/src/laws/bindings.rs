//! What key bindings promise.

use crate::bindings::keymatrix_pages;
use crate::exchange::{reply_view, seen, Reply, Step, StepView};
use crate::key_action::KeyAction;
use crate::keyboard::KeyboardInterface;
use crate::keymap::{self, KeyTables};
use crate::laws::board::{
    layer_number, lemma_block_asks, lemma_told, overwritten, page_of, profile_number, Board,
};
use crate::laws::settings::{bad_parameter, lemma_outcome, outcome};
use crate::protocol::{HidUsage, KeymatrixLayer, Layer, MacroSlot, MatrixPos, Profile, RequestView};
use vstd::prelude::*;

verus! {

/// The four bytes that a store holds for a key.
pub open spec fn key_bytes(store: Seq<u8>, key: u8) -> Seq<u8> {
    store.subrange(4 * key, 4 * key + 4)
}

/// What a user's layer of a profile stores: the first two layers are keymatrix layers, the
/// Fn layer is a table of its own.
pub open spec fn layer_store(board: Board, profile: Profile, layer: Layer) -> Seq<u8> {
    match layer {
        Layer::Base => (board.layers)(profile_number(profile), 0),
        Layer::Layer1 => (board.layers)(profile_number(profile), 1),
        Layer::Fn => (board.fn_tables)(0, profile_number(profile)),
    }
}

/// Whether only one key of one user's layer differs between two boards, and holds `config`
/// in the second.
pub open spec fn binds_only(
    before: Board,
    after: Board,
    profile: Profile,
    layer: Layer,
    key: u8,
    config: Seq<u8>,
) -> bool {
    &&& key_bytes(layer_store(after, profile, layer), key) == config
    &&& forall|other: u8|
        other != key && 4 * other + 4 <= layer_store(before, profile, layer).len()
            ==> #[trigger] key_bytes(layer_store(after, profile, layer), other) == key_bytes(
            layer_store(before, profile, layer),
            other,
        )
    &&& forall|p: Profile, l: Layer|
        p != profile || l != layer ==> #[trigger] layer_store(after, p, l) == layer_store(
            before,
            p,
            l,
        )
    &&& forall|p: u8, l: u8| l >= 2 ==> #[trigger] (after.layers)(p, l) == (before.layers)(p, l)
    &&& after.tables == before.tables
}

/// What a write to a user's layer does.
pub proof fn lemma_binds(
    board: Board,
    kb: KeyboardInterface,
    profile: Profile,
    layer: Layer,
    key: u8,
    config: Seq<u8>,
    q: RequestView,
)
    requires
        board.full(),
        key < 128,
        config.len() == 4,
        match layer {
            Layer::Fn => q == (RequestView::FnKey { sys: 0, profile, key_index: key, config }),
            _ => q matches RequestView::KeyMatrix {
                profile: p,
                key_index,
                layer: l,
                config: c,
                ..
            } && p == profile && key_index == key && c == config && layer_number(l) == (if layer
                == Layer::Base {
                0int
            } else {
                1
            }),
        },
    ensures
        binds_only(board, board.after(kb.commands, q), profile, layer, key, config),
{
    let after = board.after(kb.commands, q);
    let s = layer_store(board, profile, layer);
    let t = layer_store(after, profile, layer);
    assert(s.len() >= 512) by {
        assert((board.layers)(profile_number(profile), 0).len() >= 512);
        assert((board.layers)(profile_number(profile), 1).len() >= 512);
        assert((board.fn_tables)(0, profile_number(profile)).len() >= 512);
    }
    assert(t == overwritten(s, 4 * key, config));
    assert(key_bytes(t, key) =~= config);
    assert forall|other: u8| other != key && 4 * other + 4 <= s.len() implies #[trigger] key_bytes(
        t,
        other,
    ) == key_bytes(s, other) by {
        assert(key_bytes(t, other) =~= key_bytes(s, other));
    }
}

/// Binding four bytes to a key on a layer stores them for that key on that layer of the
/// active profile, and changes nothing else.
pub proof fn bytes_are_bound_on_their_layer(
    kb: &KeyboardInterface,
    layer: Layer,
    key: u8,
    config: [u8; 4],
    board: Board,
    none: &[Reply],
    one: &[Reply],
    asks: Step<()>,
    ends: Step<()>,
)
    requires
        board.full(),
        key < 128,
        none@.len() == 0,
        one@.len() == 1,
        call_ensures(KeyboardInterface::set_layer_config, (kb, layer, key, config, none), asks),
        call_ensures(KeyboardInterface::set_layer_config, (kb, layer, key, config, one), ends),
    ensures
        asks@ matches StepView::Ask(q) && binds_only(
            board,
            board.after(kb.commands, q),
            kb.active_profile,
            layer,
            key,
            config@,
        ),
        ends@ == outcome(one@[0]),
{
    lemma_outcome(one@);
    let q = asks@->Ask_0;
    lemma_binds(board, *kb, kb.active_profile, layer, key, config@, q);
}

/// Binding an action to a key stores the action's bytes for that key on that layer of the
/// active profile, and changes nothing else.
pub proof fn an_action_is_bound_on_its_layer(
    kb: &KeyboardInterface,
    index: MatrixPos,
    layer: Layer,
    action: &KeyAction,
    board: Board,
    none: &[Reply],
    one: &[Reply],
    asks: Step<()>,
    ends: Step<()>,
)
    requires
        board.full(),
        index.pos < 128,
        none@.len() == 0,
        one@.len() == 1,
        call_ensures(keymap::set_key, (kb, index, layer, action, none), asks),
        call_ensures(keymap::set_key, (kb, index, layer, action, one), ends),
    ensures
        asks@ matches StepView::Ask(q) && binds_only(
            board,
            board.after(kb.commands, q),
            kb.active_profile,
            layer,
            index.pos,
            action.encoded(),
        ),
        ends@ == outcome(one@[0]),
{
    lemma_outcome(one@);
    let q = asks@->Ask_0;
    lemma_binds(board, *kb, kb.active_profile, layer, index.pos, action.encoded(), q);
}

/// Assigning a macro to a key binds the macro's kind and slot to it, behind a 9.
pub proof fn a_macro_is_bound_on_its_layer(
    kb: &KeyboardInterface,
    layer: Layer,
    key: u8,
    slot: MacroSlot,
    kind: u8,
    board: Board,
    none: &[Reply],
    one: &[Reply],
    asks: Step<()>,
    ends: Step<()>,
)
    requires
        board.full(),
        key < 128,
        none@.len() == 0,
        one@.len() == 1,
        call_ensures(KeyboardInterface::assign_macro_to_key, (kb, layer, key, slot, kind, none), asks),
        call_ensures(KeyboardInterface::assign_macro_to_key, (kb, layer, key, slot, kind, one), ends),
    ensures
        asks@ matches StepView::Ask(q) && binds_only(
            board,
            board.after(kb.commands, q),
            kb.active_profile,
            layer,
            key,
            seq![9u8, kind, slot.slot, 0u8],
        ),
        ends@ == outcome(one@[0]),
{
    lemma_outcome(one@);
    let q = asks@->Ask_0;
    lemma_binds(board, *kb, kb.active_profile, layer, key, seq![9u8, kind, slot.slot, 0u8], q);
}

/// Binding bytes in the Fn table stores them for that key of that profile, and changes
/// nothing else.
pub proof fn the_fn_table_is_bound(
    kb: &KeyboardInterface,
    profile: Profile,
    key: u8,
    config: [u8; 4],
    board: Board,
    none: &[Reply],
    one: &[Reply],
    asks: Step<()>,
    ends: Step<()>,
)
    requires
        board.full(),
        key < 128,
        none@.len() == 0,
        one@.len() == 1,
        call_ensures(KeyboardInterface::set_fn_config, (kb, profile, key, config, none), asks),
        call_ensures(KeyboardInterface::set_fn_config, (kb, profile, key, config, one), ends),
    ensures
        asks@ matches StepView::Ask(q) && binds_only(
            board,
            board.after(kb.commands, q),
            profile,
            Layer::Fn,
            key,
            config@,
        ),
        ends@ == outcome(one@[0]),
{
    lemma_outcome(one@);
    let q = asks@->Ask_0;
    lemma_binds(board, *kb, profile, Layer::Fn, key, config@, q);
}

/// Resetting a key on an overlay layer empties its entry there, and changes nothing else.
pub proof fn an_overlay_is_emptied(
    kb: &KeyboardInterface,
    layer: Layer,
    key: u8,
    board: Board,
    none: &[Reply],
    one: &[Reply],
    asks: Step<()>,
    ends: Step<()>,
)
    requires
        board.full(),
        key < 128,
        none@.len() == 0,
        one@.len() == 1,
        layer != Layer::Base,
        call_ensures(KeyboardInterface::reset_key, (kb, layer, key, none), asks),
        call_ensures(KeyboardInterface::reset_key, (kb, layer, key, one), ends),
    ensures
        asks@ matches StepView::Ask(q) && binds_only(
            board,
            board.after(kb.commands, q),
            kb.active_profile,
            layer,
            key,
            seq![0u8, 0u8, 0u8, 0u8],
        ),
        ends@ == outcome(one@[0]),
{
    lemma_outcome(one@);
    let q = asks@->Ask_0;
    lemma_binds(board, *kb, kb.active_profile, layer, key, seq![0u8, 0u8, 0u8, 0u8], q);
}

/// Taking a macro off a key on an overlay layer empties the entry there.
pub proof fn a_macro_is_taken_off_an_overlay(
    kb: &KeyboardInterface,
    layer: Layer,
    key: u8,
    board: Board,
    none: &[Reply],
    one: &[Reply],
    asks: Step<()>,
    ends: Step<()>,
)
    requires
        board.full(),
        key < 128,
        none@.len() == 0,
        one@.len() == 1,
        layer != Layer::Base,
        call_ensures(KeyboardInterface::unassign_macro_from_key, (kb, layer, key, none), asks),
        call_ensures(KeyboardInterface::unassign_macro_from_key, (kb, layer, key, one), ends),
    ensures
        asks@ matches StepView::Ask(q) && binds_only(
            board,
            board.after(kb.commands, q),
            kb.active_profile,
            layer,
            key,
            seq![0u8, 0u8, 0u8, 0u8],
        ),
        ends@ == outcome(one@[0]),
{
    lemma_outcome(one@);
    let q = asks@->Ask_0;
    lemma_binds(board, *kb, kb.active_profile, layer, key, seq![0u8, 0u8, 0u8, 0u8], q);
}

/// The base layer has nothing below it: emptying a key there is refused without a request.
pub proof fn the_base_layer_is_never_emptied(
    kb: &KeyboardInterface,
    key: u8,
    given: &[Reply],
    reset: Step<()>,
    unassign: Step<()>,
)
    requires
        call_ensures(KeyboardInterface::reset_key, (kb, Layer::Base, key, given), reset),
        call_ensures(
            KeyboardInterface::unassign_macro_from_key,
            (kb, Layer::Base, key, given),
            unassign,
        ),
    ensures
        bad_parameter(reset),
        bad_parameter(unassign),
{
}

/// The factory keycode of a position: the board's own, or else the code that the shared
/// tables give to the position's name, or else none.
pub open spec fn is_factory_code(
    kb: KeyboardInterface,
    tables: KeyTables,
    pos: u8,
    code: u8,
) -> bool {
    let i = pos as int;
    let own = i < kb.matrix_defaults@.len() && kb.matrix_defaults@[i] != 0;
    &&& own ==> code == kb.matrix_defaults@[i]
    &&& !own && i < tables.names@.len() ==> {
        ||| exists|k: int|
            0 <= k < tables.codes@.len() && (#[trigger] tables.codes@[k]).0@ == tables.names@[i]@
                && tables.codes@[k].1 == code
        ||| code == 0 && forall|k: int|
            0 <= k < tables.codes@.len() ==> (#[trigger] tables.codes@[k]).0@
                != tables.names@[i]@
    }
}

/// A code by name is that of an entry with the name.
pub proof fn lemma_code_named(codes: Seq<(String, u8)>, name: Seq<char>)
    ensures
        match keymap::code_named(codes, name) {
            Some(code) => exists|k: int|
                0 <= k < codes.len() && (#[trigger] codes[k]).0@ == name && codes[k].1 == code,
            None => forall|k: int| 0 <= k < codes.len() ==> (#[trigger] codes[k]).0@ != name,
        },
    decreases codes.len(),
{
    if codes.len() > 0 {
        let rest = codes.drop_first();
        lemma_code_named(rest, name);
        if codes[0].0@ != name {
            match keymap::code_named(rest, name) {
                Some(code) => {
                    let k = choose|k: int|
                        0 <= k < rest.len() && (#[trigger] rest[k]).0@ == name && rest[k].1 == code;
                    assert(codes[k + 1] == rest[k]);
                },
                None => {
                    assert forall|k: int| 0 <= k < codes.len() implies (#[trigger] codes[k]).0@
                        != name by {
                        if k > 0 {
                            assert(codes[k] == rest[k - 1]);
                        }
                    }
                },
            }
        }
    }
}

/// Resetting a key on the base layer makes it type its factory keycode again.
pub proof fn a_reset_key_types_its_factory_code(
    kb: &KeyboardInterface,
    tables: &KeyTables,
    index: MatrixPos,
    board: Board,
    none: &[Reply],
    one: &[Reply],
    asks: Step<()>,
    ends: Step<()>,
    code: HidUsage,
)
    requires
        board.full(),
        index.pos < 128,
        none@.len() == 0,
        one@.len() == 1,
        call_ensures(keymap::device_default_keycode, (kb, tables, index), code),
        call_ensures(keymap::reset_key, (kb, tables, index, Layer::Base, none), asks),
        call_ensures(keymap::reset_key, (kb, tables, index, Layer::Base, one), ends),
    ensures
        is_factory_code(*kb, *tables, index.pos, code.code),
        asks@ matches StepView::Ask(q) && binds_only(
            board,
            board.after(kb.commands, q),
            kb.active_profile,
            Layer::Base,
            index.pos,
            seq![0u8, 0u8, code.code, 0u8],
        ),
        ends@ == outcome(one@[0]),
{
    lemma_outcome(one@);
    lemma_code_named(tables.codes@, tables.name(index.pos as int));
    let q = asks@->Ask_0;
    lemma_binds(
        board,
        *kb,
        kb.active_profile,
        Layer::Base,
        index.pos,
        seq![0u8, 0u8, code.code, 0u8],
        q,
    );
}

/// Resetting a key on an overlay layer empties its entry there.
pub proof fn a_reset_overlay_is_empty(
    kb: &KeyboardInterface,
    tables: &KeyTables,
    index: MatrixPos,
    layer: Layer,
    board: Board,
    none: &[Reply],
    asks: Step<()>,
)
    requires
        board.full(),
        index.pos < 128,
        layer != Layer::Base,
        none@.len() == 0,
        call_ensures(keymap::reset_key, (kb, tables, index, layer, none), asks),
    ensures
        asks@ matches StepView::Ask(q) && binds_only(
            board,
            board.after(kb.commands, q),
            kb.active_profile,
            layer,
            index.pos,
            seq![0u8, 0u8, 0u8, 0u8],
        ),
{
    let q = asks@->Ask_0;
    lemma_binds(
        board,
        *kb,
        kb.active_profile,
        layer,
        index.pos,
        seq![0u8, 0u8, 0u8, 0u8],
        q,
    );
}

/// A keymatrix write names its profile, its layer and its key, carries the bytes, and saves
/// only if it is asked to; a write that saves is given time.
pub proof fn a_keymatrix_entry_is_written_where_it_is_asked_for(
    kb: &KeyboardInterface,
    profile: Profile,
    key: u8,
    layer: KeymatrixLayer,
    config: [u8; 4],
    commit: bool,
    none: &[Reply],
    one: &[Reply],
    asks: Step<()>,
    ends: Step<()>,
)
    requires
        none@.len() == 0,
        one@.len() == 1,
        call_ensures(KeyboardInterface::set_keymatrix_config, (kb, profile, key, layer, config, commit, none), asks),
        call_ensures(KeyboardInterface::set_keymatrix_config, (kb, profile, key, layer, config, commit, one), ends),
    ensures
        ({
            &&& asks@ matches StepView::Ask(q)
            &&& q matches RequestView::KeyMatrix {
                profile: p,
                key_index,
                layer: l,
                commit: c,
                config: bytes,
                wait_ms,
            }
            &&& p == profile
            &&& key_index == key
            &&& l == layer
            &&& c == commit
            &&& bytes == config@
            &&& wait_ms is Some <==> commit
        }),
        ends@ == outcome(one@[0]),
{
    lemma_outcome(one@);
}

/// Making a key type a plain usage writes the usage in the middle of its four bytes.
pub proof fn a_plain_usage_is_written_where_it_is_asked_for(
    kb: &KeyboardInterface,
    profile: Profile,
    key: u8,
    hid_code: u8,
    enabled: bool,
    layer: KeymatrixLayer,
    none: &[Reply],
    one: &[Reply],
    asks: Step<()>,
    ends: Step<()>,
)
    requires
        none@.len() == 0,
        one@.len() == 1,
        call_ensures(KeyboardInterface::set_keymatrix, (kb, profile, key, hid_code, enabled, layer, none), asks),
        call_ensures(KeyboardInterface::set_keymatrix, (kb, profile, key, hid_code, enabled, layer, one), ends),
    ensures
        ({
            &&& asks@ matches StepView::Ask(q)
            &&& q matches RequestView::KeyMatrix {
                profile: p,
                key_index,
                layer: l,
                commit: c,
                config: bytes,
                ..
            }
            &&& p == profile
            &&& key_index == key
            &&& l == layer
            &&& c == enabled
            &&& bytes == seq![0u8, 0u8, hid_code, 0u8]
        }),
        ends@ == outcome(one@[0]),
{
    lemma_outcome(one@);
}

/// Swapping two keys gives each the other's usage on the base layer.
pub proof fn swapped_keys_type_each_other(
    kb: &KeyboardInterface,
    profile: Profile,
    key_a: u8,
    code_a: u8,
    key_b: u8,
    code_b: u8,
    board: Board,
    none: &[Reply],
    one: &[Reply],
    two: &[Reply],
    asks: Step<()>,
    asks_again: Step<()>,
    ends: Step<()>,
)
    requires
        board.full(),
        key_a < 128,
        key_b < 128,
        key_a != key_b,
        none@.len() == 0,
        one@.len() == 1,
        two@.len() == 2,
        one@[0] is Ok,
        two@[0] is Ok,
        two@[1] is Ok,
        call_ensures(
            KeyboardInterface::swap_keys,
            (kb, profile, key_a, code_a, key_b, code_b, none),
            asks,
        ),
        call_ensures(
            KeyboardInterface::swap_keys,
            (kb, profile, key_a, code_a, key_b, code_b, one),
            asks_again,
        ),
        call_ensures(
            KeyboardInterface::swap_keys,
            (kb, profile, key_a, code_a, key_b, code_b, two),
            ends,
        ),
    ensures
        ({
            &&& asks@ matches StepView::Ask(q)
            &&& asks_again@ matches StepView::Ask(r)
            &&& binds_only(
                board,
                board.after(kb.commands, q),
                profile,
                Layer::Base,
                key_a,
                seq![0u8, 0u8, code_b, 0u8],
            )
            &&& binds_only(
                board.after(kb.commands, q),
                board.after(kb.commands, q).after(kb.commands, r),
                profile,
                Layer::Base,
                key_b,
                seq![0u8, 0u8, code_a, 0u8],
            )
        }),
        ends == Step::<()>::Done(Ok(())),
{
    assert(seen(one@)[0] == reply_view(one@[0]));
    assert(seen(two@)[0] == reply_view(two@[0]));
    assert(seen(two@)[1] == reply_view(two@[1]));
    reveal_with_fuel(crate::exchange::walked, 4);
    let q = asks@->Ask_0;
    let r = asks_again@->Ask_0;
    let mid = board.after(kb.commands, q);
    let a = seq![0u8, 0u8, code_b, 0u8];
    let b = seq![0u8, 0u8, code_a, 0u8];
    lemma_binds(board, *kb, profile, Layer::Base, key_a, a, q);
    assert(mid.full()) by {
        assert forall|s: u8| (#[trigger] (mid.tables)(s)).len() >= 512 by {
            assert((board.tables)(s).len() >= 512);
        }
        assert forall|p: u8, l: u8| (#[trigger] (mid.layers)(p, l)).len() >= 512 by {
            assert((board.layers)(p, l).len() >= 512);
        }
        assert forall|s: u8, p: u8| (#[trigger] (mid.fn_tables)(s, p)).len() >= 512 by {
            assert((board.fn_tables)(s, p).len() >= 512);
        }
    }
    lemma_binds(mid, *kb, profile, Layer::Base, key_b, b, r);
}

/// Reading a layer asks for its pages in order, by profile and layer, and gives back what
/// the keyboard stores there.
pub proof fn layers_are_read_from_their_store(
    kb: &KeyboardInterface,
    board: Board,
    profile: Profile,
    layer: KeymatrixLayer,
    given: &[Reply],
    step: Step<Vec<u8>>,
)
    requires
        board.full(),
        given@.len() <= 8,
        forall|p: int|
            0 <= p < given@.len() ==> ((#[trigger] given@[p]) matches Ok(d) && d@ == page_of(
                (board.layers)(profile_number(profile), layer_number(layer)),
                p as u8,
            )),
        call_ensures(KeyboardInterface::get_keymatrix, (kb, profile, layer, 8, given), step),
    ensures
        given@.len() < 8 ==> {
            &&& step@ matches StepView::Ask(RequestView::Raw(f))
            &&& f.cmd == kb.commands.get_keymatrix
            &&& f.data == seq![
                profile_number(profile),
                0xFFu8,
                given@.len() as u8,
                layer_number(layer),
            ]
        },
        given@.len() == 8 ==> (step matches Step::Done(Ok(d)) && d@ == (board.layers)(
            profile_number(profile),
            layer_number(layer),
        ).take(512)),
{
    let store = (board.layers)(profile_number(profile), layer_number(layer));
    let list = keymatrix_pages(kb.commands.get_keymatrix, profile, layer, 8);
    let all = seen(given@);
    assert forall|p: int| 0 <= p < all.len() implies #[trigger] all[0 + p] == Ok::<
        Seq<u8>,
        crate::error::ErrorView,
    >(page_of(store, p as u8)) by {
        assert(given@[p] is Ok);
        assert(all[p] == reply_view(given@[p]));
    }
    assert forall|p: int| 0 <= p < all.len() implies (#[trigger] all[p]) is Ok by {
        assert(all[0 + p] is Ok);
    }
    lemma_block_asks(list, all, 0);
    if given@.len() == 8 {
        lemma_told(list, all, 0, store);
    } else {
        assert(step@ == StepView::<Seq<u8>>::Ask(list[given@.len() as int]));
    }
}

/// Reading the Fn table asks for its pages in order, by OS variant and profile, and gives
/// back what the keyboard stores there.
pub proof fn the_fn_table_is_read_from_its_store(
    kb: &KeyboardInterface,
    board: Board,
    profile: Profile,
    sys: u8,
    given: &[Reply],
    step: Step<Vec<u8>>,
)
    requires
        board.full(),
        given@.len() <= 8,
        forall|p: int|
            0 <= p < given@.len() ==> ((#[trigger] given@[p]) matches Ok(d) && d@ == page_of(
                (board.fn_tables)(sys, profile_number(profile)),
                p as u8,
            )),
        call_ensures(KeyboardInterface::get_fn_keymatrix, (kb, profile, sys, 8, given), step),
    ensures
        given@.len() < 8 ==> {
            &&& step@ matches StepView::Ask(RequestView::Raw(f))
            &&& f.cmd == kb.commands.get_fn
            &&& f.data == seq![sys, profile_number(profile), 0xFFu8, given@.len() as u8]
        },
        given@.len() == 8 ==> (step matches Step::Done(Ok(d)) && d@ == (board.fn_tables)(
            sys,
            profile_number(profile),
        ).take(512)),
{
    let store = (board.fn_tables)(sys, profile_number(profile));
    let list = crate::bindings::fn_pages(kb.commands.get_fn, sys, profile, 8);
    let all = seen(given@);
    assert forall|p: int| 0 <= p < all.len() implies #[trigger] all[0 + p] == Ok::<
        Seq<u8>,
        crate::error::ErrorView,
    >(page_of(store, p as u8)) by {
        assert(given@[p] is Ok);
        assert(all[p] == reply_view(given@[p]));
    }
    assert forall|p: int| 0 <= p < all.len() implies (#[trigger] all[p]) is Ok by {
        assert(all[0 + p] is Ok);
    }
    lemma_block_asks(list, all, 0);
    if given@.len() == 8 {
        lemma_told(list, all, 0, store);
    } else {
        assert(step@ == StepView::<Seq<u8>>::Ask(list[given@.len() as int]));
    }
}

/// Reading one key gives back the four bytes that its layer stores for it.
pub proof fn one_key_is_read_from_its_layer(
    kb: &KeyboardInterface,
    board: Board,
    profile: Profile,
    layer: KeymatrixLayer,
    key: u8,
    given: &[Reply],
    step: Step<[u8; 4]>,
)
    requires
        board.full(),
        given@.len() == 8,
        forall|p: int|
            0 <= p < given@.len() ==> ((#[trigger] given@[p]) matches Ok(d) && d@ == page_of(
                (board.layers)(profile_number(profile), layer_number(layer)),
                p as u8,
            )),
        call_ensures(KeyboardInterface::get_key_config_at_layer, (kb, profile, layer, key, given), step),
    ensures
        key < 128 ==> (step matches Step::Done(Ok(c)) && c@ == key_bytes(
            (board.layers)(profile_number(profile), layer_number(layer)),
            key,
        )),
        key >= 128 ==> bad_parameter(step),
{
    let store = (board.layers)(profile_number(profile), layer_number(layer));
    let list = keymatrix_pages(kb.commands.get_keymatrix, profile, layer, 8);
    let all = seen(given@);
    assert forall|p: int| 0 <= p < 8 implies #[trigger] all[0 + p] == Ok::<
        Seq<u8>,
        crate::error::ErrorView,
    >(page_of(store, p as u8)) by {
        assert(given@[p] is Ok);
        assert(all[p] == reply_view(given@[p]));
    }
    lemma_told(list, all, 0, store);
    if key < 128 {
        assert(store.take(512).subrange(key * 4, key * 4 + 4) =~= key_bytes(store, key));
    }
}

/// An action and its four bytes: nothing is four zeros, a key is its usage in any of the
/// three places behind a zero, a macro is behind a 9, a consumer usage behind a 3, and Fn is
/// `[10, 1, 0, 0]`.
pub proof fn bytes_stand_for_actions(b: [u8; 4], action: KeyAction)
    requires
        call_ensures(KeyAction::from_config_bytes, (b,), action),
    ensures
        action == KeyAction::Disabled <==> b@ == seq![0u8, 0u8, 0u8, 0u8],
        action matches KeyAction::Key(u) ==> u.code != 0 && (b@ == seq![0u8, u.code, 0u8, 0u8] || b@
            == seq![0u8, 0u8, u.code, 0u8] || b@ == seq![0u8, 0u8, 0u8, u.code]),
        action matches KeyAction::Chord(x, y, z) ==> b@ == seq![0u8, x.code, y.code, z.code],
        action matches KeyAction::Macro { kind, slot } ==> b@ == seq![9u8, kind, slot.slot, 0u8],
        action matches KeyAction::Consumer(w) ==> b@[0] == 3 && b@[1] == 0 && b@[2] + 256 * b@[3]
            == w,
        action == KeyAction::Fn <==> b@ == seq![10u8, 1u8, 0u8, 0u8],
        action matches KeyAction::Other(x, y, z, w) ==> b@ == seq![x, y, z, w],
        b@[0] == 0 ==> action is Disabled || action is Key || action is Chord,
        b@[0] == 3 && b@[1] == 0 ==> action is Consumer,
        b@[0] == 9 && b@[3] == 0 ==> action is Macro,
        b@[0] == 0 && b@[1] == 0 && b@[3] == 0 && b@[2] != 0 ==> action is Key,
        b@[0] == 0 && b@[2] == 0 && b@[3] == 0 && b@[1] != 0 ==> action is Key,
        b@[0] == 0 && b@[1] == 0 && b@[2] == 0 && b@[3] != 0 ==> action is Key,
{
    assert(b@.len() == 4);
    assert(b@ =~= seq![b@[0], b@[1], b@[2], b@[3]]);
    assert((b@ == seq![0u8, 0u8, 0u8, 0u8]) == (b@ =~= seq![0u8, 0u8, 0u8, 0u8]));
    assert((b@ == seq![10u8, 1u8, 0u8, 0u8]) == (b@ =~= seq![10u8, 1u8, 0u8, 0u8]));
}

/// Writing an action and reading the bytes again gives the action, for every action that is
/// no key of usage 0 and no chord of fewer than two keys.
pub proof fn actions_survive_their_bytes(action: KeyAction, b: [u8; 4], again: KeyAction)
    requires
        call_ensures(KeyAction::to_config_bytes, (&action,), b),
        call_ensures(KeyAction::from_config_bytes, (b,), again),
        action matches KeyAction::Key(u) ==> u.code != 0,
        action matches KeyAction::Chord(x, y, z) ==> (x.code != 0 && y.code != 0) || (x.code != 0
            && z.code != 0) || (y.code != 0 && z.code != 0),
        action matches KeyAction::Other(x, y, z, w) ==> x != 0 && !(x == 3 && y == 0) && !(x == 9
            && w == 0) && !(x == 10 && y == 1 && z == 0 && w == 0),
    ensures
        again == action,
{
    if let KeyAction::Consumer(w) = action {
        crate::bits::le_bytes_round_trip(w);
    }
}

/// A key is remapped on its base layer unless it is empty, is the Fn key, or types its
/// factory keycode, in whichever place that stands.
pub proof fn remaps_are_what_differs(
    k: &[u8],
    default_code: HidUsage,
    remap: bool,
    a: int,
    b: int,
)
    requires
        call_ensures(keymap::is_user_remap, (k, default_code), remap),
    ensures
        k@.len() != 4 ==> !remap,
        k@ == seq![0u8, 0u8, 0u8, 0u8] ==> !remap,
        k@ == seq![10u8, 1u8, 0u8, 0u8] ==> !remap,
        k@ == seq![0u8, default_code.code, 0u8, 0u8] ==> !remap,
        k@ == seq![0u8, 0u8, default_code.code, 0u8] ==> !remap,
        k@ == seq![0u8, 0u8, 0u8, default_code.code] ==> !remap,
        k@.len() == 4 && k@[0] != 0 && k@ != seq![10u8, 1u8, 0u8, 0u8] ==> remap,
        k@.len() == 4 && k@[0] == 0 && 1 <= a < b < 4 && k@[a] != 0 && k@[b] != 0 ==> remap,
        k@.len() == 4 && k@[0] == 0 && 1 <= a < 4 && k@[a] != 0 && k@[a] != default_code.code
            ==> remap,
{
    if k@.len() == 4 {
        assert((k@ == seq![10u8, 1u8, 0u8, 0u8]) == (k@ =~= seq![10u8, 1u8, 0u8, 0u8]));
    }
}

} // verus!
