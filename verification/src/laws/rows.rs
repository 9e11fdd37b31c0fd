//! What one row per key promises.

use crate::key_action::KeyAction;
use crate::keymap::{
    build_key_rows, is_user_remap, row_views, rows_are_the_positions_in_use, KeyRow, RawKeyRows,
};
use crate::protocol::HidUsage;
use vstd::prelude::*;

verus! {

/// Whether a table of four bytes per position stores something for a position.
pub open spec fn stores(table: Seq<u8>, i: int) -> bool {
    &&& 4 * i + 4 <= table.len()
    &&& table[4 * i] != 0 || table[4 * i + 1] != 0 || table[4 * i + 2] != 0 || table[4 * i + 3] != 0
}

/// Whether a position has a name: one that is there, and does not start with `#`.
pub open spec fn has_name(raw: RawKeyRows, i: int) -> bool {
    i < raw.names@.len() && raw.names@[i]@.len() > 0 && raw.names@[i]@[0] != '#'
}

/// Whether any layer stores something for a position.
pub open spec fn is_bound(raw: RawKeyRows, i: int) -> bool {
    ||| stores(raw.layers@[0]@, i)
    ||| stores(raw.layers@[1]@, i)
    ||| stores(raw.layers@[2]@, i)
    ||| stores(raw.layers@[3]@, i)
    ||| raw.fn_layer matches Some(d) && stores(d@, i)
}

/// A row stands for one position, and shows what each table says of that position: every
/// column comes from the table of its own name, and is zero where that table ends.
#[verifier::spinoff_prover]
pub proof fn columns_come_from_their_tables(raw: &RawKeyRows, rows: Vec<KeyRow>, k: int)
    requires
        call_ensures(build_key_rows, (raw,), rows),
        raw.key_count <= 256,
        0 <= k < rows@.len(),
    ensures
        ({
            let row = rows@[k];
            let i = row.index.pos as int;
            let t = raw.triggers;
            &&& i < raw.key_count
            &&& i < t.press_travel@.len() ==> row.actuation == t.press_travel@[i]
            &&& i < t.lift_travel@.len() ==> row.release == t.lift_travel@[i]
            &&& i < t.rt_press@.len() ==> row.rt_press == t.rt_press@[i]
            &&& i < t.rt_lift@.len() ==> row.rt_lift == t.rt_lift@[i]
            &&& i < t.bottom_deadzone@.len() ==> row.bottom_dz == t.bottom_deadzone@[i]
            &&& i < t.top_deadzone@.len() ==> row.top_dz == t.top_deadzone@[i]
            &&& i < raw.dks_travels@.len() ==> row.dks_travel == raw.dks_travels@[i]
            &&& i < raw.modtap@.len() ==> row.modtap_ms == raw.modtap@[i]
            &&& i < t.key_modes@.len() ==> row.mode.code + (if row.rapid_trigger {
                128int
            } else {
                0
            }) == t.key_modes@[i] && row.mode.code < 128
            &&& i >= t.press_travel@.len() ==> row.actuation == 0
            &&& i >= t.lift_travel@.len() ==> row.release == 0
            &&& i >= t.rt_press@.len() ==> row.rt_press == 0
            &&& i >= t.rt_lift@.len() ==> row.rt_lift == 0
            &&& i >= t.bottom_deadzone@.len() ==> row.bottom_dz == 0
            &&& i >= t.top_deadzone@.len() ==> row.top_dz == 0
            &&& i >= raw.dks_travels@.len() ==> row.dks_travel == 0
            &&& i >= raw.modtap@.len() ==> row.modtap_ms == 0
            &&& i >= t.key_modes@.len() ==> row.mode.code == 0 && !row.rapid_trigger
        }),
{
    rows_are_the_positions_in_use(raw@, raw.key_count as nat);
    assert(row_views(rows@)[k] == rows@[k]@);
}

/// A row shows the four bytes of its position on each layer, and the Snap-Tap partner that
/// the partner table names, if that is a key.
#[verifier::spinoff_prover]
pub proof fn rows_show_their_bindings(raw: &RawKeyRows, rows: Vec<KeyRow>, k: int, l: int, b: int)
    requires
        call_ensures(build_key_rows, (raw,), rows),
        raw.key_count <= 256,
        0 <= k < rows@.len(),
        0 <= l < 4,
        0 <= b < 4,
    ensures
        ({
            let row = rows@[k];
            let i = row.index.pos as int;
            &&& i < raw.names@.len() ==> row.position@ == raw.names@[i]@
            &&& 4 * i + 4 <= raw.layers@[l]@.len() ==> row.raw@[l]@[b] == raw.layers@[l]@[4 * i + b]
            &&& 4 * i + 4 > raw.layers@[l]@.len() ==> row.raw@[l]@[b] == 0
            &&& row.outputs@[l] == KeyAction::decoded(row.raw@[l]@)
            &&& l > 0 ==> row.output_remapped@[l] == stores(raw.layers@[l]@, i)
            &&& row.fn_raw is Some <==> (raw.fn_layer matches Some(d) && 4 * i + 4 <= d@.len())
            &&& row.fn_raw matches Some(f) ==> f@[b] == raw.fn_layer->0@[4 * i + b]
            &&& row.fn_action is Some <==> (raw.fn_layer matches Some(d) && stores(d@, i))
            &&& row.fn_action matches Some(a) ==> row.fn_raw is Some && a == KeyAction::decoded(
                row.fn_raw->0@,
            )
            &&& 4 * i + 4 <= raw.dks_blob@.len() ==> row.dks_modes@[b] == raw.dks_blob@[4 * i + b]
            &&& 4 * i + 4 > raw.dks_blob@.len() ==> row.dks_modes@[b] == 0
            &&& row.snaptap_partner matches Some(p) ==> i < raw.snaptap@.len() && p
                == raw.snaptap@[i] && p < raw.key_count && p != 0xFF
            &&& i < raw.snaptap@.len() && raw.snaptap@[i] < raw.key_count && raw.snaptap@[i] != 0xFF
                ==> row.snaptap_partner is Some
        }),
{
    rows_are_the_positions_in_use(raw@, raw.key_count as nat);
    let row = rows@[k];
    let i = row.index.pos as int;
    assert(row_views(rows@)[k] == row@);
    assert(row@ == raw@.row(i));
    assert(row@.raw[l] == raw@.bytes(l, i));
    assert(row@.outputs[l] == KeyAction::decoded(raw@.bytes(l, i)));
    assert(row@.output_remapped[l] == raw@.layer_remapped(l, i));
    assert(raw@.layers[l] == raw.layers@[l]@);
    assert(row.raw@[l]@ == raw@.bytes(l, i));
    let d = raw.layers@[l]@;
    let zeros = seq![0u8, 0u8, 0u8, 0u8];
    if 4 * i + 4 <= d.len() {
        let s = d.subrange(i * 4, i * 4 + 4);
        assert(s[0] == d[4 * i] && s[1] == d[4 * i + 1] && s[2] == d[4 * i + 2] && s[3] == d[4 * i
            + 3]);
        assert((s == zeros) == (s =~= zeros));
    }
    if let Some(f) = raw.fn_layer {
        if 4 * i + 4 <= f@.len() {
            let s = f@.subrange(i * 4, i * 4 + 4);
            assert(s[0] == f@[4 * i] && s[1] == f@[4 * i + 1] && s[2] == f@[4 * i + 2] && s[3]
                == f@[4 * i + 3]);
            assert((s == zeros) == (s =~= zeros));
        }
    }
}

/// Every position that has a name or stores something has one row, in the order of the
/// positions, and no other position has one.
#[verifier::spinoff_prover]
pub proof fn one_row_per_key(raw: &RawKeyRows, rows: Vec<KeyRow>, i: int)
    requires
        call_ensures(build_key_rows, (raw,), rows),
        raw.key_count <= 256,
        0 <= i < raw.key_count,
    ensures
        has_name(*raw, i) || is_bound(*raw, i) <==> exists|k: int|
            0 <= k < rows@.len() && (#[trigger] rows@[k]).index.pos == i,
        forall|a: int, b: int|
            0 <= a < b < rows@.len() ==> (#[trigger] rows@[a]).index.pos < (
            #[trigger] rows@[b]).index.pos,
{
    rows_are_the_positions_in_use(raw@, raw.key_count as nat);
    let views = row_views(rows@);
    let zeros = seq![0u8, 0u8, 0u8, 0u8];
    assert forall|d: Seq<u8>| #[trigger] crate::keymap::nothing_at(d, i) == !stores(d, i) by {
        if 4 * i + 4 <= d.len() {
            let s = d.subrange(i * 4, i * 4 + 4);
            assert(s[0] == d[4 * i] && s[1] == d[4 * i + 1] && s[2] == d[4 * i + 2] && s[3] == d[4
                * i + 3]);
            assert((s == zeros) == (s =~= zeros));
        }
    }
    assert(raw@.layers[0] == raw.layers@[0]@);
    assert(raw@.layers[1] == raw.layers@[1]@);
    assert(raw@.layers[2] == raw.layers@[2]@);
    assert(raw@.layers[3] == raw.layers@[3]@);
    reveal_strlit("#");
    if i >= raw.names@.len() {
        assert(raw@.name(i)[0] == '#');
    } else {
        assert(raw@.name(i) == raw.names@[i]@);
    }
    assert(raw@.is_gap(i) == (!has_name(*raw, i) && !is_bound(*raw, i)));
    if !raw@.is_gap(i) {
        let k = choose|k: int| 0 <= k < views.len() && views[k] == raw@.row(i);
        assert(views[k] == rows@[k]@);
        assert(rows@[k].index.pos == i);
    }
    assert forall|k: int| 0 <= k < rows@.len()
        && (#[trigger] rows@[k]).index.pos == i implies !raw@.is_gap(
        i,
    ) by {
        assert(views[k] == rows@[k]@);
    }
    assert forall|a: int, b: int| 0 <= a < b < rows@.len() implies (#[trigger] rows@[a]).index.pos
        < (#[trigger] rows@[b]).index.pos by {
        assert(views[a] == rows@[a]@ && views[b] == rows@[b]@);
    }
}

/// The base layer of a row is marked exactly if its bytes are a remap of the factory key of
/// that position.
#[verifier::spinoff_prover]
pub proof fn base_remaps_are_marked(
    raw: &RawKeyRows,
    rows: Vec<KeyRow>,
    k: int,
    bytes: &[u8],
    code: HidUsage,
    marked: bool,
)
    requires
        call_ensures(build_key_rows, (raw,), rows),
        raw.key_count <= 256,
        0 <= k < rows@.len(),
        bytes@ == rows@[k].raw@[0]@,
        ({
            let i = rows@[k].index.pos as int;
            &&& i < raw.defaults@.len() ==> code == raw.defaults@[i]
            &&& i >= raw.defaults@.len() ==> code.code == 0
        }),
        call_ensures(is_user_remap, (bytes, code), marked),
    ensures
        rows@[k].output_remapped@[0] == marked,
{
    rows_are_the_positions_in_use(raw@, raw.key_count as nat);
    let row = rows@[k];
    let i = row.index.pos as int;
    assert(row_views(rows@)[k] == row@);
    assert(row@ == raw@.row(i));
    assert(row@.raw[0] == raw@.bytes(0, i));
    assert(row@.output_remapped[0] == raw@.layer_remapped(0, i));
    assert(row.raw@[0]@ == raw@.bytes(0, i));
}

} // verus!
