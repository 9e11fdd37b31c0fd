//! What commands promise: which key a text is about, what is done to it, and what is said.

use crate::bindings::keymatrix_pages;
use crate::commands::{
    self, answer_is_complete, choose_profile, classify_answer, create_printer_config,
    effective_layer, error_text, forced_exit_notice, format_command_response, plan_profile,
    progress_line, remap_notice, remap_outcome, reset_notice, reset_outcome, restore_notice,
    swap_notice, swap_positions, switch_failure, switch_notice, AnswerKind, CmdCtx,
    InterruptAction, InterruptState, PrinterConfig, ProfilePlan, Remap, Swap, SwapView, UnknownKey,
};
use crate::error::KeyboardError;
use crate::exchange::{reply_view, seen, Reply, Step, StepView};
use crate::key_action::KeyAction;
use crate::key_ref::{
    first_plus, has_layer_prefix, has_prefix, lower_names, position_of, prefix_selects_the_layer,
    reference, resolve_reference, KeyRef,
};
use crate::keyboard::KeyboardInterface;
use crate::keymap::{KeyTables, LoadStage};
use crate::laws::bindings::{binds_only, is_factory_code, key_bytes, lemma_binds, lemma_code_named};
use crate::laws::board::{
    layer_number, lemma_block_asks, lemma_told, page_of, profile_number, Board,
};
use crate::laws::settings::{lemma_outcome, outcome};
use crate::laws::text::{lemma_dec, lemma_hex2, worth};
use crate::protocol::{
    layer_named, CommandTable, HidUsage, KeymatrixLayer, Layer, MatrixPos, Profile, RequestView,
};
use crate::registry::name_views;
use crate::text::{dec, lowercased, parsed_number, repeated};
use vstd::prelude::*;

verus! {

/// The layer that a word in lower case stands for, behind which a `+` and a key may follow.
pub open spec fn layer_word(s: Seq<char>, layer: Layer) -> bool {
    match layer {
        Layer::Base => s == "base"@ || s == "l0"@ || s == "0"@,
        Layer::Layer1 => s == "l1"@ || s == "1"@,
        Layer::Fn => s == "fn"@ || s == "2"@,
    }
}

/// The words of the layers are different, and none of them holds a `+`.
proof fn lemma_layer_word(s: Seq<char>, layer: Layer)
    requires
        layer_word(s, layer),
    ensures
        layer_named(s) == Some(layer),
{
    reveal_strlit("0");
    reveal_strlit("l0");
    reveal_strlit("base");
    reveal_strlit("1");
    reveal_strlit("l1");
    reveal_strlit("2");
    reveal_strlit("fn");
    assert("0"@[0] == '0' && "1"@[0] == '1' && "2"@[0] == '2');
    assert("l0"@[1] == '0' && "l1"@[1] == '1');
    assert("base"@.len() == 4 && "fn"@.len() == 2 && "fn"@[0] == 'f' && "l0"@[0] == 'l'
        && "l1"@[0] == 'l');
}

/// Whether a name is that of a position, and of none before it.
pub open spec fn first_named(names: Seq<Seq<char>>, name: Seq<char>, i: int) -> bool {
    &&& 0 <= i < names.len()
    &&& names[i] == name
    &&& forall|k: int| 0 <= k < i ==> #[trigger] names[k] != name
}

/// Where a name stands first.
proof fn lemma_first_named(names: Seq<Seq<char>>, name: Seq<char>, i: int)
    requires
        first_named(names, name, i),
    ensures
        position_of(names, name) == Some(i),
    decreases i,
{
    if i > 0 {
        let rest = names.drop_first();
        assert(names[0] != name);
        assert forall|k: int| 0 <= k < i - 1 implies #[trigger] rest[k] != name by {
            assert(rest[k] == names[k + 1]);
        }
        lemma_first_named(rest, name, i - 1);
    }
}

/// A name that no position has.
proof fn lemma_not_named(names: Seq<Seq<char>>, name: Seq<char>)
    requires
        !names.contains(name),
    ensures
        position_of(names, name) is None,
    decreases names.len(),
{
    if names.len() > 0 {
        let rest = names.drop_first();
        assert(names[0] != name);
        assert(!rest.contains(name)) by {
            if rest.contains(name) {
                let k = choose|k: int| 0 <= k < rest.len() && rest[k] == name;
                assert(names[k + 1] == name);
            }
        }
        lemma_not_named(rest, name);
    }
}

/// A text without a `+` has no first one.
proof fn lemma_no_plus(s: Seq<char>)
    requires
        !s.contains('+'),
    ensures
        first_plus(s) is None,
    decreases s.len(),
{
    if s.len() > 0 {
        assert(s[0] != '+');
        let rest = s.drop_first();
        assert(!rest.contains('+')) by {
            if rest.contains('+') {
                let k = choose|k: int| 0 <= k < rest.len() && rest[k] == '+';
                assert(s[k + 1] == '+');
            }
        }
        lemma_no_plus(rest);
    }
}

/// What a key name refers to.
proof fn lemma_named(names: Seq<Seq<char>>, name: Seq<char>, i: int)
    requires
        first_named(names, name, i),
        i < 256,
        !name.contains('+'),
    ensures
        reference(names, name) == Some((i as u8, Layer::Base)),
        !has_prefix(name),
{
    lemma_no_plus(name);
    lemma_first_named(names, name, i);
}

/// A key name refers to the first position of that name, on the base layer.
pub proof fn a_name_refers_to_its_position(
    names: &Vec<String>,
    s: &str,
    i: int,
    r: Option<(u8, Layer)>,
    prefixed: bool,
)
    requires
        first_named(name_views(names@), s@, i),
        i < 256,
        !s@.contains('+'),
        call_ensures(resolve_reference, (names, s), r),
        call_ensures(has_layer_prefix, (s,), prefixed),
    ensures
        r == Some((i as u8, Layer::Base)),
        !prefixed,
{
    lemma_named(name_views(names@), s@, i);
}

/// The word for a layer and a `+` before a key name refer to that key on that layer.
pub proof fn a_prefix_refers_to_its_layer(
    names: &Vec<String>,
    word: Seq<char>,
    layer: Layer,
    name: Seq<char>,
    s: &str,
    i: int,
    r: Option<(u8, Layer)>,
    prefixed: bool,
)
    requires
        first_named(name_views(names@), name, i),
        i < 256,
        !name.contains('+'),
        layer_word(word, layer),
        s@ == word + seq!['+'] + name,
        call_ensures(resolve_reference, (names, s), r),
        call_ensures(has_layer_prefix, (s,), prefixed),
    ensures
        r == Some((i as u8, layer)),
        prefixed,
{
    let views = name_views(names@);
    lemma_named(views, name, i);
    lemma_layer_word(word, layer);
    prefix_selects_the_layer(views, word, name);
    lemma_has_prefix(word, name);
}

/// A text with a layer word before its first `+` has a prefix.
proof fn lemma_has_prefix(word: Seq<char>, name: Seq<char>)
    requires
        layer_named(word) is Some,
    ensures
        has_prefix(word + seq!['+'] + name),
    decreases word.len(),
{
    reveal_with_fuel(first_plus, 6);
    reveal_strlit("0");
    reveal_strlit("l0");
    reveal_strlit("base");
    reveal_strlit("1");
    reveal_strlit("l1");
    reveal_strlit("2");
    reveal_strlit("fn");
    let s = word + seq!['+'] + name;
    let n = word.len() as int;
    assert(s.take(n) =~= word);
    assert(s[n] == '+');
    assert forall|k: int| 0 <= k < n implies #[trigger] s[k] != '+' by {
        assert(s[k] == word[k]);
        assert(word[k] != '+');
    }
    lemma_plus_at(s, n);
}

/// Where the first `+` stands.
proof fn lemma_plus_at(s: Seq<char>, n: int)
    requires
        0 <= n < s.len(),
        s[n] == '+',
        forall|k: int| 0 <= k < n ==> #[trigger] s[k] != '+',
    ensures
        first_plus(s) == Some(n),
    decreases n,
{
    if n > 0 {
        assert(s[0] != '+');
        let rest = s.drop_first();
        assert forall|k: int| 0 <= k < n - 1 implies #[trigger] rest[k] != '+' by {
            assert(rest[k] == s[k + 1]);
        }
        lemma_plus_at(rest, n - 1);
    }
}

/// A number that is no key name refers to the position of that number.
pub proof fn a_number_refers_to_its_position(
    names: &Vec<String>,
    s: &str,
    n: u8,
    r: Option<(u8, Layer)>,
)
    requires
        s@ == dec(n as nat),
        !name_views(names@).contains(s@),
        call_ensures(resolve_reference, (names, s), r),
    ensures
        r == Some((n, Layer::Base)),
{
    lemma_dec(n as nat);
    lemma_not_named(name_views(names@), s@);
    assert(!s@.contains('+'));
    lemma_no_plus(s@);
    lemma_number(s@, n as nat);
}

/// Digits are read as what they are worth.
proof fn lemma_number(s: Seq<char>, n: nat)
    requires
        s == dec(n),
        n <= 255,
    ensures
        parsed_number(s, 255) == Some(n),
{
    lemma_dec(n);
    assert(s[0] != '+');
    assert(crate::text::all_digits(s));
    lemma_value(n);
}

/// The value of the digits of a number.
proof fn lemma_value(n: nat)
    ensures
        crate::text::decimal_value(dec(n)) == n,
    decreases n,
{
    if n >= 10 {
        lemma_value(n / 10);
        assert(dec(n).drop_last() =~= dec(n / 10));
    } else {
        reveal_with_fuel(crate::text::decimal_value, 2);
        assert(dec(n).drop_last() =~= Seq::<char>::empty());
    }
}

/// A text that is neither a name nor a number refers to nothing.
pub proof fn other_texts_refer_to_nothing(names: &Vec<String>, s: &str, c: int, r: Option<(u8,
    Layer)>)
    requires
        !name_views(names@).contains(s@),
        !s@.contains('+'),
        0 <= c < s@.len(),
        !('0' <= s@[c] <= '9'),
        call_ensures(resolve_reference, (names, s), r),
    ensures
        r is None,
{
    lemma_no_plus(s@);
    lemma_not_named(name_views(names@), s@);
    assert(!crate::text::is_digit(s@[c]));
}

/// A reference is read in either case, and carries the name of its position.
pub proof fn references_are_read_in_either_case(
    tables: &KeyTables,
    s: &str,
    t: &str,
    i: int,
    r: Option<KeyRef>,
    q: Option<KeyRef>,
)
    requires
        lowercased(s@) == lowercased(t@),
        first_named(lower_names(tables.names@), lowercased(s@), i),
        i < 256,
        !lowercased(s@).contains('+'),
        call_ensures(KeyRef::parse, (tables, s), r),
        call_ensures(KeyRef::parse, (tables, t), q),
    ensures
        r is Some && q is Some,
        r->0.index.pos == i && q->0.index.pos == i,
        r->0.layer == Layer::Base && q->0.layer == Layer::Base,
        r->0.position@ == tables.names@[i]@,
{
    lemma_named(lower_names(tables.names@), lowercased(s@), i);
}

/// A reference is shown as its position, behind the name of its layer unless that is the
/// base layer.
pub proof fn references_are_shown(k: &KeyRef, r: String)
    requires
        call_ensures(KeyRef::text, (k,), r),
    ensures
        k.layer == Layer::Base ==> r@ == k.position@,
        k.layer == Layer::Layer1 ==> r@ == seq!['L', '1', '+'] + k.position@,
        k.layer == Layer::Fn ==> r@ == seq!['F', 'n', '+'] + k.position@,
{
    reveal_strlit("L1");
    reveal_strlit("Fn");
    reveal_strlit("+");
    assert("L1"@ + "+"@ =~= seq!['L', '1', '+']);
    assert("Fn"@ + "+"@ =~= seq!['F', 'n', '+']);
}

/// A layer that the text names goes before the one that was asked for.
pub proof fn the_text_decides_the_layer(
    text: &str,
    named: Layer,
    asked: Layer,
    word: Seq<char>,
    layer: Layer,
    rest: Seq<char>,
    r: Layer,
)
    requires
        call_ensures(effective_layer, (text, named, asked), r),
    ensures
        layer_word(word, layer) && lowercased(text@) == word + seq!['+'] + rest ==> r == named,
        !lowercased(text@).contains('+') ==> r == asked,
{
    if layer_word(word, layer) && lowercased(text@) == word + seq!['+'] + rest {
        lemma_layer_word(word, layer);
        lemma_has_prefix(word, rest);
    }
    if !lowercased(text@).contains('+') {
        lemma_no_plus(lowercased(text@));
    }
}

/// Whether a remap writes a key on a layer.
pub open spec fn writes(r: Remap, pos: int, layer: Layer) -> bool {
    r matches Remap::Write { target, .. } && target.index.pos == pos && target.layer == layer
}

/// The step of a remap that writes.
pub open spec fn remap_step(r: Remap) -> StepView<()> {
    match r {
        Remap::Write { step, .. } => step@,
        _ => StepView::Done(Ok(())),
    }
}

/// Remapping a key that is named without a layer binds the action to that key on the layer
/// that was asked for, and changes nothing else.
pub proof fn a_remap_binds_the_named_key(
    kb: &KeyboardInterface,
    tables: &KeyTables,
    from: &str,
    action: KeyAction,
    layer: Layer,
    board: Board,
    i: int,
    none: &[Reply],
    one: &[Reply],
    asks: Remap,
    ends: Remap,
)
    requires
        board.full(),
        none@.len() == 0,
        one@.len() == 1,
        first_named(lower_names(tables.names@), lowercased(from@), i),
        i < 128,
        !lowercased(from@).contains('+'),
        call_ensures(commands::remap, (kb, tables, from, Ok(action), layer, none), asks),
        call_ensures(commands::remap, (kb, tables, from, Ok(action), layer, one), ends),
    ensures
        writes(asks, i, layer),
        remap_step(asks) matches StepView::Ask(q) && binds_only(
            board,
            board.after(kb.commands, q),
            kb.active_profile,
            layer,
            i as u8,
            action.encoded(),
        ),
        remap_step(ends) == outcome(one@[0]),
{
    lemma_named(lower_names(tables.names@), lowercased(from@), i);
    lemma_outcome(one@);
    let q = remap_step(asks)->Ask_0;
    lemma_binds(board, *kb, kb.active_profile, layer, i as u8, action.encoded(), q);
}

/// Remapping a key that is named behind a layer binds the action to that key on that layer,
/// whatever layer was asked for.
pub proof fn a_remap_binds_on_the_named_layer(
    kb: &KeyboardInterface,
    tables: &KeyTables,
    from: &str,
    word: Seq<char>,
    name: Seq<char>,
    action: KeyAction,
    named: Layer,
    asked: Layer,
    board: Board,
    i: int,
    none: &[Reply],
    asks: Remap,
)
    requires
        board.full(),
        none@.len() == 0,
        first_named(lower_names(tables.names@), name, i),
        i < 128,
        !name.contains('+'),
        layer_word(word, named),
        lowercased(from@) == word + seq!['+'] + name,
        call_ensures(commands::remap, (kb, tables, from, Ok(action), asked, none), asks),
    ensures
        writes(asks, i, named),
        remap_step(asks) matches StepView::Ask(q) && binds_only(
            board,
            board.after(kb.commands, q),
            kb.active_profile,
            named,
            i as u8,
            action.encoded(),
        ),
{
    let views = lower_names(tables.names@);
    lemma_named(views, name, i);
    lemma_layer_word(word, named);
    prefix_selects_the_layer(views, word, name);
    lemma_has_prefix(word, name);
    let q = remap_step(asks)->Ask_0;
    lemma_binds(board, *kb, kb.active_profile, named, i as u8, action.encoded(), q);
}

/// A remap of a key that does not exist, or to an action that makes no sense, writes
/// nothing; the key is looked at first.
pub proof fn a_senseless_remap_writes_nothing(
    kb: &KeyboardInterface,
    tables: &KeyTables,
    from: &str,
    to: Result<KeyAction, String>,
    layer: Layer,
    given: &[Reply],
    c: int,
    r: Remap,
)
    requires
        call_ensures(commands::remap, (kb, tables, from, to, layer, given), r),
    ensures
        !lower_names(tables.names@).contains(lowercased(from@)) && !lowercased(from@).contains('+')
            && 0 <= c < lowercased(from@).len() && !('0' <= lowercased(from@)[c] <= '9')
            ==> r is UnknownKey,
        to is Err ==> r is UnknownKey || r == Remap::BadAction(to->Err_0),
{
    let low = lowercased(from@);
    if !lower_names(tables.names@).contains(low) && !low.contains('+') && 0 <= c < low.len() && !(
    '0' <= low[c] <= '9') {
        lemma_no_plus(low);
        lemma_not_named(lower_names(tables.names@), low);
        assert(!crate::text::is_digit(low[c]));
    }
}

/// The step of a reset.
pub open spec fn reset_step(r: Option<(KeyRef, Step<()>)>) -> StepView<()> {
    match r {
        Some((_, step)) => step@,
        None => StepView::Done(Ok(())),
    }
}

/// Resetting a key that is named makes it type its factory keycode again on the base layer,
/// and empties its entry on any other.
pub proof fn a_reset_restores_the_named_key(
    kb: &KeyboardInterface,
    tables: &KeyTables,
    key: &str,
    layer: Layer,
    board: Board,
    i: int,
    none: &[Reply],
    one: &[Reply],
    asks: Option<(KeyRef, Step<()>)>,
    ends: Option<(KeyRef, Step<()>)>,
    code: HidUsage,
)
    requires
        board.full(),
        none@.len() == 0,
        one@.len() == 1,
        first_named(lower_names(tables.names@), lowercased(key@), i),
        i < 128,
        !lowercased(key@).contains('+'),
        call_ensures(
            crate::keymap::device_default_keycode,
            (kb, tables, (MatrixPos { pos: i as u8 })),
            code,
        ),
        call_ensures(commands::reset_key, (kb, tables, key, layer, none), asks),
        call_ensures(commands::reset_key, (kb, tables, key, layer, one), ends),
    ensures
        is_factory_code(*kb, *tables, i as u8, code.code),
        asks matches Some((target, _)) && target.index.pos == i && target.layer == layer,
        reset_step(asks) matches StepView::Ask(q) && binds_only(
            board,
            board.after(kb.commands, q),
            kb.active_profile,
            layer,
            i as u8,
            seq![
                0u8,
                0u8,
                if layer == Layer::Base {
                    code.code
                } else {
                    0u8
                },
                0u8,
            ],
        ),
        reset_step(ends) == outcome(one@[0]),
{
    lemma_named(lower_names(tables.names@), lowercased(key@), i);
    lemma_outcome(one@);
    lemma_code_named(tables.codes@, tables.name(i));
    let q = reset_step(asks)->Ask_0;
    let config = seq![
        0u8,
        0u8,
        if layer == Layer::Base {
            code.code
        } else {
            0u8
        },
        0u8,
    ];
    lemma_binds(board, *kb, kb.active_profile, layer, i as u8, config, q);
}

/// The usage that a key has on the base layer of a profile.
pub open spec fn base_usage(board: Board, profile: Profile, key: u8) -> u8 {
    key_bytes((board.layers)(profile_number(profile), 0), key)[2]
}

/// The pages of the base layer, read one after the other.
pub open spec fn tells_base(board: Board, profile: Profile, given: Seq<Reply>) -> bool {
    forall|p: int|
        0 <= p < given.len() && p < 8 ==> ((#[trigger] given[p]) matches Ok(d) && d@ == page_of(
            (board.layers)(profile_number(profile), 0),
            p as u8,
        ))
}

/// What a swap does once the base layer is read.
proof fn lemma_swap(
    kb: KeyboardInterface,
    board: Board,
    profile: Profile,
    a: u8,
    b: u8,
    given: Seq<Reply>,
)
    requires
        board.full(),
        tells_base(board, profile, given),
        given.len() >= 8,
        a < 128,
        b < 128,
    ensures
        ({
            let got = commands::swapped(kb.commands.get_keymatrix, profile, a, b, seen(given));
            let store = (board.layers)(profile_number(profile), 0).take(512);
            let list = commands::swap_writes(profile, store, a, b);
            let (ua, ub) = (
                HidUsage { code: base_usage(board, profile, a) },
                HidUsage { code: base_usage(board, profile, b) },
            );
            &&& commands::usage_at(store, a) == ua.code
            &&& commands::usage_at(store, b) == ub.code
            &&& got == (match crate::exchange::sent_from(list, seen(given), 8) {
                crate::exchange::PartView::Ask(r) => SwapView::Write(r, ua, ub),
                crate::exchange::PartView::Failed { error, .. } => SwapView::WriteFailed(error),
                crate::exchange::PartView::Found { .. } => SwapView::Done(ua, ub),
            })
        }),
{
    let store = (board.layers)(profile_number(profile), 0);
    let list = keymatrix_pages(kb.commands.get_keymatrix, profile, KeymatrixLayer::Layer0, 8);
    let all = seen(given);
    assert(layer_number(KeymatrixLayer::Layer0) == 0);
    assert forall|p: int| 0 <= p < 8 implies #[trigger] all[0 + p] == Ok::<
        Seq<u8>,
        crate::error::ErrorView,
    >(page_of(store, p as u8)) by {
        assert(given[p] is Ok);
        assert(all[p] == reply_view(given[p]));
    }
    lemma_told(list, all, 0, store);
    let first = store.take(512);
    assert(first[4 * a + 2] == key_bytes(store, a)[2]);
    assert(first[4 * b + 2] == key_bytes(store, b)[2]);
}

/// Swapping two keys reads the base layer, then binds each of them to the usage that the
/// other had, and tells both usages.
pub proof fn a_swap_exchanges_usages(
    kb: &KeyboardInterface,
    a: MatrixPos,
    b: MatrixPos,
    profile: Profile,
    board: Board,
    read: &[Reply],
    half: &[Reply],
    all: &[Reply],
    first: Swap,
    second: Swap,
    ends: Swap,
)
    requires
        board.full(),
        a.pos < 128,
        b.pos < 128,
        a != b,
        read@.len() == 8,
        half@.len() == 9,
        all@.len() == 10,
        tells_base(board, profile, read@),
        tells_base(board, profile, half@),
        tells_base(board, profile, all@),
        half@[8] is Ok,
        all@[8] is Ok,
        all@[9] is Ok,
        call_ensures(swap_positions, (kb, a, b, profile, read), first),
        call_ensures(swap_positions, (kb, a, b, profile, half), second),
        call_ensures(swap_positions, (kb, a, b, profile, all), ends),
    ensures
        ({
            let ua = base_usage(board, profile, a.pos);
            let ub = base_usage(board, profile, b.pos);
            &&& first@ matches SwapView::Write(q, was_a, was_b)
            &&& second@ matches SwapView::Write(r, _, _)
            &&& was_a.code == ua
            &&& was_b.code == ub
            &&& binds_only(
                board,
                board.after(kb.commands, q),
                profile,
                Layer::Base,
                a.pos,
                seq![0u8, 0u8, ub, 0u8],
            )
            &&& binds_only(
                board,
                board.after(kb.commands, r),
                profile,
                Layer::Base,
                b.pos,
                seq![0u8, 0u8, ua, 0u8],
            )
            &&& ends@ == SwapView::Done(was_a, was_b)
        }),
{
    reveal_with_fuel(crate::exchange::walked, 4);
    lemma_swap(*kb, board, profile, a.pos, b.pos, read@);
    lemma_swap(*kb, board, profile, a.pos, b.pos, half@);
    lemma_swap(*kb, board, profile, a.pos, b.pos, all@);
    assert(seen(half@)[8] == reply_view(half@[8]));
    assert(seen(all@)[8] == reply_view(all@[8]));
    assert(seen(all@)[9] == reply_view(all@[9]));
    let ua = base_usage(board, profile, a.pos);
    let ub = base_usage(board, profile, b.pos);
    lemma_binds(
        board,
        *kb,
        profile,
        Layer::Base,
        a.pos,
        seq![0u8, 0u8, ub, 0u8],
        first@->Write_0,
    );
    lemma_binds(
        board,
        *kb,
        profile,
        Layer::Base,
        b.pos,
        seq![0u8, 0u8, ua, 0u8],
        second@->Write_0,
    );
}

/// While the base layer is read, a swap asks for its pages in order.
pub proof fn a_swap_reads_the_base_layer_first(
    kb: &KeyboardInterface,
    a: MatrixPos,
    b: MatrixPos,
    profile: Profile,
    given: &[Reply],
    r: Swap,
)
    requires
        given@.len() < 8,
        forall|i: int| 0 <= i < given@.len() ==> (#[trigger] given@[i]) is Ok,
        call_ensures(swap_positions, (kb, a, b, profile, given), r),
    ensures
        r@ matches SwapView::Read(RequestView::Raw(f)) && f.cmd == kb.commands.get_keymatrix
            && f.data == seq![profile_number(profile), 0xFFu8, given@.len() as u8, 0u8],
{
    let list = keymatrix_pages(kb.commands.get_keymatrix, profile, KeymatrixLayer::Layer0, 8);
    let all = seen(given@);
    assert forall|p: int| 0 <= p < all.len() implies (#[trigger] all[p]) is Ok by {
        assert(given@[p] is Ok);
        assert(all[p] == reply_view(given@[p]));
    }
    lemma_block_asks(list, all, 0);
}

/// A swap of keys by name is a swap of their positions; the key that is unknown is told,
/// the first before the second.
pub proof fn a_swap_finds_its_keys(
    kb: &KeyboardInterface,
    tables: &KeyTables,
    key1: &str,
    key2: &str,
    profile: Profile,
    given: &[Reply],
    i: int,
    j: int,
    r: Result<Swap, UnknownKey>,
    at: Swap,
)
    requires
        first_named(lower_names(tables.names@), lowercased(key1@), i),
        first_named(lower_names(tables.names@), lowercased(key2@), j),
        i < 256,
        j < 256,
        !lowercased(key1@).contains('+'),
        !lowercased(key2@).contains('+'),
        call_ensures(commands::swap, (kb, tables, key1, key2, profile, given), r),
        call_ensures(
            swap_positions,
            (kb, (MatrixPos { pos: i as u8 }), (MatrixPos { pos: j as u8 }), profile, given),
            at,
        ),
    ensures
        r is Ok,
        r->Ok_0@ == at@,
{
    lemma_named(lower_names(tables.names@), lowercased(key1@), i);
    lemma_named(lower_names(tables.names@), lowercased(key2@), j);
}

/// A key that does not exist is not swapped; the first of two that do not is told.
pub proof fn a_swap_tells_the_unknown_key(
    kb: &KeyboardInterface,
    tables: &KeyTables,
    key1: &str,
    key2: &str,
    profile: Profile,
    given: &[Reply],
    c: int,
    r: Result<Swap, UnknownKey>,
)
    requires
        call_ensures(commands::swap, (kb, tables, key1, key2, profile, given), r),
    ensures
        ({
            let low = lowercased(key1@);
            !lower_names(tables.names@).contains(low) && !low.contains('+') && 0 <= c < low.len()
                && !('0' <= low[c] <= '9') ==> r == Err::<Swap, UnknownKey>(UnknownKey::First)
        }),
        ({
            let low = lowercased(key2@);
            !lower_names(tables.names@).contains(low) && !low.contains('+') && 0 <= c < low.len()
                && !('0' <= low[c] <= '9') ==> r is Err
        }),
{
    let names = lower_names(tables.names@);
    let (a, b) = (lowercased(key1@), lowercased(key2@));
    if !names.contains(a) && !a.contains('+') && 0 <= c < a.len() && !('0' <= a[c] <= '9') {
        lemma_no_plus(a);
        lemma_not_named(names, a);
        assert(!crate::text::is_digit(a[c]));
    }
    if !names.contains(b) && !b.contains('+') && 0 <= c < b.len() && !('0' <= b[c] <= '9') {
        lemma_no_plus(b);
        lemma_not_named(names, b);
        assert(!crate::text::is_digit(b[c]));
    }
}

/// An answer is told by the command that it echoes.
pub proof fn answers_are_told_by_their_command(c: &CommandTable, cmd: u8, r: AnswerKind)
    requires
        call_ensures(classify_answer, (c, cmd), r),
    ensures
        cmd == c.get_usb_version ==> r == AnswerKind::Version,
        r == AnswerKind::Version ==> cmd == c.get_usb_version,
        r == AnswerKind::Profile ==> cmd == c.get_profile,
        r == AnswerKind::Debounce ==> cmd == c.get_debounce,
        r == AnswerKind::Led ==> cmd == c.get_ledparam,
        r == AnswerKind::Options ==> c.get_kboption == Some(cmd),
        r == AnswerKind::Features ==> cmd == c.get_feature_list,
        r == AnswerKind::Sleep ==> c.get_sleeptime == Some(cmd),
        r == AnswerKind::Other <==> cmd != c.get_usb_version && cmd != c.get_profile && cmd
            != c.get_debounce && cmd != c.get_ledparam && c.get_kboption != Some(cmd) && cmd
            != c.get_feature_list && c.get_sleeptime != Some(cmd),
{
}

/// An answer that is complete stays complete with more bytes, and has all the bytes that
/// are shown of it.
pub proof fn complete_answers_hold_what_is_shown(
    kind: AnswerKind,
    d: &[u8],
    more: &[u8],
    r: bool,
    s: bool,
)
    requires
        d@.len() <= more@.len(),
        call_ensures(answer_is_complete, (kind, d), r),
        call_ensures(answer_is_complete, (kind, more), s),
    ensures
        r ==> s,
        r ==> d@.len() >= 1,
        d@.len() >= 11 ==> r,
        kind == AnswerKind::Version ==> (r <==> d@.len() >= 9),
        kind == AnswerKind::Profile || kind == AnswerKind::Debounce ==> (r <==> d@.len() >= 2),
        kind == AnswerKind::Led ==> (r <==> d@.len() >= 8),
        kind == AnswerKind::Features ==> (r <==> d@.len() >= 11),
        kind == AnswerKind::Sleep ==> (r <==> d@.len() >= 3),
        kind == AnswerKind::Options || kind == AnswerKind::Other ==> (r <==> d@.len() >= 1),
{
}

/// The head of every answer names the command that it echoes.
pub proof fn answers_name_their_command(
    kind: AnswerKind,
    d: &[u8],
    name: &str,
    mode: &str,
    mask: u8,
    r: Vec<String>,
)
    requires
        d@.len() >= 11,
        call_ensures(format_command_response, (kind, d, name, mode, mask), r),
    ensures
        r@.len() >= 2,
        ({
            let head = r@[0]@;
            &&& head.len() == 18 + name@.len() + 2
            &&& head.subrange(18, 18int + name@.len()) == name@
            &&& worth(head.subrange(13, 15), 16) == d@[0]
        }),
{
    reveal_strlit("\nResponse (0x");
    reveal_strlit(" = ");
    reveal_strlit("):");
    lemma_hex2(d@[0]);
    let lines = name_views(r@);
    assert(lines == commands::response_lines(kind, d@, name@, mode@, mask));
    assert(lines.len() >= 2);
    assert(lines[0] == r@[0]@);
    let head = r@[0]@;
    assert(head == commands::heading_line(d@[0], name@));
    assert(head.subrange(18, 18int + name@.len()) =~= name@);
    assert(head.subrange(13, 15) =~= crate::text::hex2_lower(d@[0]));
}

/// A version answer shows the little-endian device id and the version.
pub proof fn version_answers_show_id_and_version(
    d: &[u8],
    name: &str,
    mode: &str,
    mask: u8,
    r: Vec<String>,
)
    requires
        d@.len() >= 9,
        call_ensures(format_command_response, (AnswerKind::Version, d, name, mode, mask), r),
    ensures
        r@.len() == 3,
        ({
            let id = d@[1] + 256 * d@[2] + 65536 * d@[3] + 16777216 * d@[4];
            "  Device ID:  "@ + dec(id as nat) + " (0x"@
        }).is_prefix_of(r@[1]@),
        ({
            let v = d@[7] + 256 * d@[8];
            "  Version:    "@ + dec(v as nat) + " (v"@ + dec((v / 100) as nat) + "."@
        }).is_prefix_of(r@[2]@),
{
    let lines = name_views(r@);
    assert(lines == seq![commands::heading_line(d@[0], name@)] + commands::version_lines(d@));
    assert(lines.len() == 3);
    assert(lines.len() == 3 && lines[1] == r@[1]@ && lines[2] == r@[2]@);
    let id = (d@[1] + 256 * d@[2] + 65536 * d@[3] + 16777216 * d@[4]) as nat;
    let v = (d@[7] + 256 * d@[8]) as nat;
    let a = "  Device ID:  "@ + dec(id) + " (0x"@;
    let b = "  Version:    "@ + dec(v) + " (v"@ + dec(v / 100) + "."@;
    assert(r@[1]@ == lines[1]);
    assert(r@[1]@.take(a.len() as int) =~= a);
    assert(r@[2]@.take(b.len() as int) =~= b);
}

/// A short answer shows the byte behind the echo.
pub proof fn short_answers_show_their_byte(
    d: &[u8],
    name: &str,
    mode: &str,
    mask: u8,
    profile: Vec<String>,
    debounce: Vec<String>,
    sleep: Vec<String>,
)
    requires
        d@.len() >= 3,
        call_ensures(format_command_response, (AnswerKind::Profile, d, name, mode, mask), profile),
        call_ensures(format_command_response, (AnswerKind::Debounce, d, name, mode, mask),
            debounce),
        call_ensures(format_command_response, (AnswerKind::Sleep, d, name, mode, mask), sleep),
    ensures
        profile@.len() == 2 && profile@[1]@ == "  Profile:    "@ + dec(d@[1] as nat),
        debounce@.len() == 2 && debounce@[1]@ == "  Debounce:   "@ + dec(d@[1] as nat) + " ms"@,
        sleep@.len() == 2,
        ({
            let secs = (d@[1] + 256 * d@[2]) as nat;
            sleep@[1]@ == "  Sleep:      "@ + dec(secs) + " seconds ("@ + dec(secs / 60)
                + " min)"@
        }),
{
    let (p, q, s) = (name_views(profile@), name_views(debounce@), name_views(sleep@));
    assert(p == commands::response_lines(AnswerKind::Profile, d@, name@, mode@, mask));
    assert(q == commands::response_lines(AnswerKind::Debounce, d@, name@, mode@, mask));
    assert(s == commands::response_lines(AnswerKind::Sleep, d@, name@, mode@, mask));
    assert(p.len() == 2 && q.len() == 2 && s.len() == 2);
    assert(p.len() == 2 && p[1] == profile@[1]@);
    assert(q.len() == 2 && q[1] == debounce@[1]@);
    assert(s.len() == 2 && s[1] == sleep@[1]@);
}

/// An LED answer shows mode, brightness, speed and color, and that colors cycle only if the
/// option byte says so. The firmware counts the speed the other way.
pub proof fn led_answers_show_their_fields(
    d: &[u8],
    name: &str,
    mode: &str,
    mask: u8,
    r: Vec<String>,
)
    requires
        d@.len() >= 8,
        call_ensures(format_command_response, (AnswerKind::Led, d, name, mode, mask), r),
    ensures
        r@.len() == (if d@[4] & mask == 7 {
            6int
        } else {
            5
        }),
        r@[1]@ == "  LED Mode:   "@ + dec(d@[1] as nat) + " ("@ + mode@ + ")"@,
        r@[2]@ == "  Brightness: "@ + dec(d@[2] as nat) + "/4"@,
        d@[3] <= 4 ==> r@[3]@ == "  Speed:      "@ + dec((4 - d@[3]) as nat) + "/4"@,
        ("  Color RGB:  ("@ + dec(d@[5] as nat) + ", "@ + dec(d@[6] as nat) + ", "@ + dec(
            d@[7] as nat,
        ) + ") #"@).is_prefix_of(r@[4]@),
{
    let lines = name_views(r@);
    let led = commands::led_lines(d@, mode@, mask);
    assert(lines == seq![commands::heading_line(d@[0], name@)] + led);
    assert(led.len() >= 4);
    assert(lines.len() == 1 + led.len());
    assert(lines[1] == led[0] && lines[2] == led[1] && lines[3] == led[2] && lines[4] == led[3]);
    assert(lines[1] == r@[1]@ && lines[2] == r@[2]@ && lines[3] == r@[3]@ && lines[4] == r@[4]@);
    let a = "  Color RGB:  ("@ + dec(d@[5] as nat) + ", "@ + dec(d@[6] as nat) + ", "@ + dec(
        d@[7] as nat,
    ) + ") #"@;
    assert(r@[4]@.take(a.len() as int) =~= a);
}

/// An options answer shows each option from its own byte; the stability counts in steps of
/// 25 milliseconds.
pub proof fn option_answers_show_their_fields(
    d: &[u8],
    name: &str,
    mode: &str,
    mask: u8,
    r: Vec<String>,
)
    requires
        d@.len() >= 6,
        call_ensures(format_command_response, (AnswerKind::Options, d, name, mode, mask), r),
    ensures
        r@.len() == 6,
        "  OS Mode:    "@.is_prefix_of(r@[1]@),
        r@[2]@ == "  Fn Layer:   "@ + dec((d@[2] % 2) as nat),
        r@[3]@ == "  Anti-touch: "@ + (if d@[3] == 0 {
            "false"@
        } else {
            "true"@
        }),
        d@[4] <= 5 ==> r@[4]@ == "  RTStab:     "@ + dec((25 * d@[4]) as nat) + " ms"@,
        d@[4] > 5 ==> r@[4]@ == "  RTStab:     "@ + dec(0) + " ms"@,
        r@[5]@ == "  WASD Swap:  "@ + (if d@[5] == 0 {
            "false"@
        } else {
            "true"@
        }),
{
    let lines = name_views(r@);
    let shown = commands::option_lines(d@);
    assert(lines == seq![commands::heading_line(d@[0], name@)] + shown);
    assert(shown.len() == 5);
    assert(lines.len() == 6);
    assert(lines[1] == shown[0] && lines[2] == shown[1] && lines[3] == shown[2]);
    assert(lines[4] == shown[3] && lines[5] == shown[4]);
    assert(lines[1] == r@[1]@ && lines[2] == r@[2]@ && lines[3] == r@[3]@);
    assert(lines[4] == r@[4]@ && lines[5] == r@[5]@);
    let b = d@.skip(1);
    assert(b[0] == d@[1] && b[1] == d@[2] && b[2] == d@[3] && b[3] == d@[4] && b[4] == d@[5]);
    let a = "  OS Mode:    "@;
    assert(r@[1]@.take(a.len() as int) =~= a);
}

/// A feature answer shows the ten bytes behind the echo and names the precision, which is the
/// second of them.
pub proof fn feature_answers_show_their_bytes(
    d: &[u8],
    name: &str,
    mode: &str,
    mask: u8,
    r: Vec<String>,
)
    requires
        d@.len() >= 11,
        call_ensures(format_command_response, (AnswerKind::Features, d, name, mode, mask), r),
    ensures
        r@.len() == 3,
        r@[1]@ == "  Features:   "@ + crate::text::hex_list(d@.take(11).skip(1)),
        d@[2] == 0 ==> r@[2]@ == "  Precision:  "@ + "0.1mm"@,
        d@[2] == 1 ==> r@[2]@ == "  Precision:  "@ + "0.05mm"@,
        d@[2] == 2 ==> r@[2]@ == "  Precision:  "@ + "0.01mm"@,
        d@[2] > 2 ==> r@[2]@ == "  Precision:  "@ + "unknown"@,
{
    let lines = name_views(r@);
    assert(lines == commands::response_lines(AnswerKind::Features, d@, name@, mode@, mask));
    assert(lines.len() == 3);
    assert(lines[1] == r@[1]@ && lines[2] == r@[2]@);
    assert(d@.subrange(1, 11) =~= d@.take(11).skip(1));
}

/// An answer that has no form of its own shows its bytes, up to sixteen.
pub proof fn other_answers_show_their_bytes(
    d: &[u8],
    more: &[u8],
    name: &str,
    mode: &str,
    mask: u8,
    r: Vec<String>,
    s: Vec<String>,
)
    requires
        d@.len() >= 16,
        more@.len() >= 16,
        d@.take(16) == more@.take(16),
        call_ensures(format_command_response, (AnswerKind::Other, d, name, mode, mask), r),
        call_ensures(format_command_response, (AnswerKind::Other, more, name, mode, mask), s),
    ensures
        r@.len() == 2,
        r@[1]@ == "  Raw data:   "@ + crate::text::hex_list(d@.take(16)),
        s@[1]@ == r@[1]@,
{
    let (a, b) = (name_views(r@), name_views(s@));
    assert(a == commands::response_lines(AnswerKind::Other, d@, name@, mode@, mask));
    assert(b == commands::response_lines(AnswerKind::Other, more@, name@, mode@, mask));
    assert(a.len() == 2 && b.len() == 2);
    assert(a.len() == 2 && a[1] == r@[1]@);
    assert(b.len() == 2 && b[1] == s@[1]@);
    assert(d@.subrange(0, 16) =~= d@.take(16));
    assert(more@.subrange(0, 16) =~= d@.take(16));
}

/// A command runs at once on the profile that is active, or if that is not known; else the
/// board is switched there and back.
pub proof fn other_profiles_are_switched_to(
    wanted: Profile,
    current: Option<Profile>,
    r: ProfilePlan,
)
    requires
        call_ensures(plan_profile, (wanted, current), r),
    ensures
        r is Switch <==> current is Some && current->0 != wanted,
        r is Switch ==> r->from == current->0 && r->to == wanted && r->from != r->to,
{
}

/// The profile that was asked for goes before the one that the board runs, and without
/// either there is none.
pub proof fn a_profile_is_never_made_up(
    forced: Option<Profile>,
    queried: Result<Profile, KeyboardError>,
    r: Result<Profile, String>,
)
    requires
        call_ensures(choose_profile, (forced, queried), r),
    ensures
        forced is Some ==> r is Ok && r->Ok_0 == forced->0,
        forced is None && queried is Ok ==> r is Ok && r->Ok_0 == queried->Ok_0,
        forced is None && queried is Err ==> r is Err,
{
}

/// The first interrupt lets the operation finish, so that the profile is restored; the
/// second exits, and tells of a profile that was not restored, once.
pub proof fn two_interrupts_end_the_program(
    start: InterruptState,
    s: &mut InterruptState,
    t: &mut InterruptState,
    u: &mut InterruptState,
    v: &mut InterruptState,
    back: Profile,
    first: InterruptAction,
    second: InterruptAction,
    third: InterruptAction,
)
    requires
        call_ensures(InterruptState::new, (), start),
        *old(s) == start,
        call_ensures(InterruptState::switched_from, (s, back), ()),
        *old(t) == *final(s),
        call_ensures(InterruptState::on_interrupt, (t,), first),
        *old(u) == *final(t),
        call_ensures(InterruptState::on_interrupt, (u,), second),
        *old(v) == *final(u),
        call_ensures(InterruptState::on_interrupt, (v,), third),
    ensures
        first == InterruptAction::Finish,
        second == InterruptAction::Exit(Some(back)),
        third == InterruptAction::Exit(None),
{
}

/// A profile that was restored is not told of when the program is made to exit.
pub proof fn a_restored_profile_is_forgotten(
    s: &mut InterruptState,
    t: &mut InterruptState,
    r: InterruptAction,
)
    requires
        call_ensures(InterruptState::restored, (s,), ()),
        *old(t) == *final(s),
        !old(s).running,
        call_ensures(InterruptState::on_interrupt, (t,), r),
    ensures
        r == InterruptAction::Exit(None),
        final(s).running == old(s).running,
{
}

/// Packets are printed when they are to be watched or recorded, and then as it was asked.
pub proof fn packets_are_printed_as_asked(
    monitor: bool,
    hex: bool,
    all_hid: bool,
    filter: Option<String>,
    record: Option<String>,
    r: Option<PrinterConfig>,
)
    requires
        call_ensures(create_printer_config, (monitor, hex, all_hid, filter, record), r),
    ensures
        r is None <==> !monitor && record is None,
        r is Some ==> r->0.hex == hex && r->0.all_hid == all_hid && r->0.filter == filter
            && r->0.record == record,
{
}

/// A command is given the device and the profile that were asked for.
pub proof fn commands_get_what_was_asked_for(
    printer: Option<PrinterConfig>,
    device: Option<String>,
    profile: Option<Profile>,
    c: CmdCtx,
    r: Option<&str>,
)
    requires
        call_ensures(CmdCtx::new, (printer, device, profile), c),
        call_ensures(CmdCtx::device_selector, (&c,), r),
    ensures
        c.profile == profile,
        c.printer_config == printer,
        r is Some <==> device is Some,
        r is Some ==> r->0@ == device->0@,
{
}

/// The number that a user knows a profile by.
pub open spec fn user_number(p: Profile) -> nat {
    match p {
        Profile::First => 1,
        Profile::Second => 2,
        Profile::Third => 3,
        Profile::Fourth => 4,
    }
}

/// What is said of profiles names them by the numbers one to four, and in commands by the
/// numbers that the commands take.
pub proof fn profiles_are_named_by_their_number(
    from: Profile,
    to: Profile,
    done: String,
    failed: String,
    error: KeyboardError,
    switched: String,
    stuck: String,
    left: String,
)
    requires
        call_ensures(restore_notice, (to, &Ok(())), done),
        call_ensures(restore_notice, (to, &Err(error)), failed),
        call_ensures(switch_notice, (from, to), switched),
        call_ensures(switch_failure, (to, &error), stuck),
        call_ensures(forced_exit_notice, (to,), left),
    ensures
        done@ == "Restored profile "@ + dec(user_number(to)) + "."@,
        ("WARNING: could not restore profile "@ + dec(user_number(to)) + ": "@
            + error_text(error@)).is_prefix_of(failed@),
        failed@.len() > 2 && failed@.last() == '.' && failed@[failed@.len() - 3]
            == "0123"@[profile_number(to) as int],
        stuck@ == "Failed to switch to profile "@ + dec(user_number(to)) + ": "@ + error_text(
            error@,
        ),
        left@.len() > 2 && left@[left@.len() - 3] == "0123"@[profile_number(to) as int],
        ({
            let tail = "Switching "@ + dec(user_number(from)) + " -> "@ + dec(user_number(to))
                + " …"@;
            switched@.len() >= 21 && exists|n: int|
                0 <= n <= switched@.len() && #[trigger] switched@.skip(n) == dec(user_number(from))
                    + " -> "@ + dec(user_number(to)) + " …"@
        }),
{
    reveal_strlit("`.");
    reveal_strlit("0123");
    reveal_with_fuel(dec, 2);
    let a = "WARNING: could not restore profile "@ + dec(user_number(to)) + ": "@ + error_text(
        error@,
    );
    assert(failed@.take(a.len() as int) =~= a);
    assert(dec(profile_number(to) as nat) =~= seq!["0123"@[profile_number(to) as int]]);
    let head
        = "Trigger settings are stored per profile but carry no profile in the protocol,\nso profile "@
        + dec(user_number(to)) + " has to be active while it is edited.\nSwitching "@;
    let tail = dec(user_number(from)) + " -> "@ + dec(user_number(to)) + " …"@;
    reveal_strlit(" has to be active while it is edited.\nSwitching ");
    assert(switched@ =~= head + tail);
    assert(switched@.skip(head.len() as int) =~= tail);
}

/// What is said of a remap names the key, its position and the action.
pub proof fn remaps_are_told(
    target: &KeyRef,
    shown: String,
    action: &str,
    layer: &str,
    notice: String,
    done: String,
    error: KeyboardError,
    failed: String,
)
    requires
        call_ensures(KeyRef::text, (target,), shown),
        call_ensures(remap_notice, (target, action, layer), notice),
        call_ensures(remap_outcome, (target, action, &Ok(())), done),
        call_ensures(remap_outcome, (target, action, &Err(error)), failed),
    ensures
        notice@ == "Remapping "@ + shown@ + " (index "@ + dec(target.index.pos as nat) + ") to "@
            + action@ + " on "@ + layer@ + " layer..."@,
        done@ == shown@ + (" remapped to "@ + action@),
        failed@ == "Failed to remap key: "@ + error_text(error@),
{
}

/// What is said of a reset names the key and its position.
pub proof fn resets_are_told(
    target: &KeyRef,
    shown: String,
    layer: &str,
    notice: String,
    done: String,
    error: KeyboardError,
    failed: String,
)
    requires
        call_ensures(KeyRef::text, (target,), shown),
        call_ensures(reset_notice, (target, layer), notice),
        call_ensures(reset_outcome, (target, &Ok(())), done),
        call_ensures(reset_outcome, (target, &Err(error)), failed),
    ensures
        notice@ == "Resetting "@ + shown@ + " (index "@ + dec(target.index.pos as nat) + ") on "@
            + layer@ + "..."@,
        done@ == shown@ + " reset to default"@,
        failed@ == "Failed to reset key: "@ + error_text(error@),
{
}

/// What is said of a swap names either key with what it does.
pub proof fn swaps_are_told(a: &str, does_a: &str, b: &str, does_b: &str, r: String)
    requires
        call_ensures(swap_notice, (a, does_a, b, does_b), r),
    ensures
        r@ == "Swapping "@ + a@ + " ("@ + does_a@ + ") <-> "@ + b@ + " ("@ + does_b@ + ")..."@,
{
}

/// The bar of a progress line is twenty characters wide in every stage, grows from stage to
/// stage, and is full in the last.
pub proof fn progress_grows_to_full(
    stage: &LoadStage,
    next: &LoadStage,
    r: String,
    s: String,
    a: nat,
    b: nat,
)
    requires
        stage.total == next.total,
        stage.done < next.done < next.total,
        (next.done + 1) * 20 <= usize::MAX,
        a == (stage.done + 1) * 20 / stage.total as int,
        b == (next.done + 1) * 20 / next.total as int,
        call_ensures(progress_line, (stage,), r),
        call_ensures(progress_line, (next,), s),
    ensures
        a <= b <= 20,
        next.done + 1 == next.total ==> b == 20,
        r@ == "\r\x1b[2Kreading "@ + stage.label@ + " ("@ + dec((stage.done + 1) as nat) + "/"@ +
            dec(
            stage.total as nat,
        ) + ")"@ + " ["@ + repeated('#', a) + repeated('·', (20 - a) as nat) + "]"@,
        s@ == "\r\x1b[2Kreading "@ + next.label@ + " ("@ + dec((next.done + 1) as nat) + "/"@ + dec(
            next.total as nat,
        ) + ")"@ + " ["@ + repeated('#', b) + repeated('·', (20 - b) as nat) + "]"@,
{
    let t = stage.total as int;
    commands::progress_bar_fits(next.done as nat, next.total as nat);
    assert((stage.done + 1) * 20 / t <= (next.done + 1) * 20 / t) by (nonlinear_arith)
        requires
            stage.done < next.done,
            t > 0,
    ;
}

} // verus!
