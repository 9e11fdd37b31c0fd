//! Key bindings as a whole: remap detection, writing and resetting keys, and one row per
//! physical key that fuses the keymatrix with the trigger tables.

use crate::bindings::{
    fn_pages, fn_read, keymatrix_pages, keymatrix_read, layer_write, usage_write, KEYMATRIX_PAGES,
};
use crate::error::{ErrorView, KeyboardError};
use crate::exchange::{
    blocks_grow, blocks_start_fresh, fresh, grows, seen, sent, Part, PartView, Reply, ReplyView, Step,
};
use crate::key_action::{is_empty_slot, KeyAction};
use crate::keyboard::KeyboardInterface;
use crate::macros::page_count;
use crate::magnetism::{
    blob_modes, byte_at, get_byte, get_word, word_at, DksConfig, KeyMode, ModeByte, TriggerSettings,
    TriggerView,
};
use crate::protocol::{
    CommandTable, HidUsage, KeymatrixLayer, Layer, MatrixPos, Profile, Request, RequestView,
};
use crate::text::{dec, push_dec, str_eq};
use crate::triggers::{
    dks_blob_read, dks_travels_read, modtap_read, optional, pages_of, snaptap_read, table_pages,
    trigger_reads_grow, trigger_reads_start_fresh, triggers_read, DKS_BLOB_PAGES, SNAPTAP_UNBOUND,
};
use vstd::prelude::*;

verus! {

/// Positions in the firmware's keymatrix array. The pages that are read cover 128; the
/// last two are past the end of the array.
pub const MATRIX_POSITIONS: usize = 126;

/// Whether four config bytes are a user's remap, where `default_code` is the position's
/// factory keycode.
///
/// An empty slot is how overlay layers spell "transparent", and the Fn key sits at its
/// own position by default. Otherwise the decoded action counts, not the bytes: the
/// factory keycode is no remap whichever usage slot it stands in.
pub open spec fn remapped(k: Seq<u8>, default_code: HidUsage) -> bool {
    let action = KeyAction::decoded(k);
    k.len() == 4 && action != KeyAction::Disabled && action != KeyAction::Fn && action
        != KeyAction::Key(default_code)
}

/// Whether four config bytes are a user's remap. Any other number of bytes is none.
pub fn is_user_remap(k: &[u8], default_code: HidUsage) -> (r: bool)
    ensures
        r == remapped(k@, default_code),
{
    if k.len() != 4 {
        return false;
    }
    let bytes: [u8; 4] = [k[0], k[1], k[2], k[3]];
    assert(bytes@ =~= k@);
    match KeyAction::from_config_bytes(bytes) {
        KeyAction::Disabled => false,
        KeyAction::Fn => false,
        action => action != KeyAction::Key(default_code),
    }
}

/// A position that holds its factory keycode is not remapped.
pub proof fn factory_keycode_is_no_remap(default_code: HidUsage)
    ensures
        !remapped(KeyAction::Key(default_code).encoded(), default_code),
{
}

/// The tables that all boards share.
pub struct KeyTables {
    /// Name per matrix position; `"?"` where there is none.
    pub names: Vec<String>,
    /// Keycode per key name.
    pub codes: Vec<(String, u8)>,
}

/// The code of the first entry with a name.
pub open spec fn code_named(codes: Seq<(String, u8)>, name: Seq<char>) -> Option<u8>
    decreases codes.len(),
{
    if codes.len() == 0 {
        None
    } else if codes[0].0@ == name {
        Some(codes[0].1)
    } else {
        code_named(codes.drop_first(), name)
    }
}

impl KeyTables {
    /// The name of a position, `"?"` where there is none.
    pub open spec fn name(self, pos: int) -> Seq<char> {
        if 0 <= pos < self.names@.len() {
            self.names@[pos]@
        } else {
            "?"@
        }
    }

    /// The factory keycode of a position after its name.
    pub open spec fn default_of(self, pos: MatrixPos) -> HidUsage {
        match code_named(self.codes@, self.name(pos.pos as int)) {
            Some(code) => HidUsage { code },
            None => HidUsage { code: 0 },
        }
    }

    /// The name of a position, `"?"` where there is none.
    pub fn key_name(&self, pos: MatrixPos) -> (r: &str)
        ensures
            r@ == self.name(pos.pos as int),
    {
        let i: usize = pos.pos as usize;
        if i < self.names.len() {
            self.names[i].as_str()
        } else {
            "?"
        }
    }

    /// The code of the first entry with a name.
    pub fn key_code_from_name(&self, name: &str) -> (r: Option<u8>)
        ensures
            r == code_named(self.codes@, name@),
    {
        let mut i: usize = 0;
        assert(self.codes@.skip(0) =~= self.codes@);
        while i < self.codes.len()
            invariant
                i <= self.codes@.len(),
                code_named(self.codes@, name@) == code_named(self.codes@.skip(i as int), name@),
            decreases self.codes@.len() - i,
        {
            assert(self.codes@.skip(i as int).drop_first() =~= self.codes@.skip(i + 1));
            if str_eq(self.codes[i].0.as_str(), name) {
                return Some(self.codes[i].1);
            }
            i += 1;
        }
        None
    }
}

/// Factory keycode of a matrix position after the shared tables.
///
/// Only right for boards that match them; prefer [`device_default_keycode`].
pub fn default_keycode(tables: &KeyTables, pos: MatrixPos) -> (r: HidUsage)
    ensures
        r == tables.default_of(pos),
{
    match tables.key_code_from_name(tables.key_name(pos)) {
        Some(code) => HidUsage { code },
        None => HidUsage { code: 0 },
    }
}

/// Factory keycode of a position on a device: its own, or else that of the shared
/// tables.
pub open spec fn device_default(kb: KeyboardInterface, tables: KeyTables, pos: MatrixPos) -> HidUsage {
    match kb.default_at(pos.pos as int) {
        Some(code) => HidUsage { code },
        None => tables.default_of(pos),
    }
}

/// Factory keycode of a matrix position on *this* device.
///
/// Without the device's own table, a board whose layout differs would have every
/// differing key read as customised.
pub fn device_default_keycode(kb: &KeyboardInterface, tables: &KeyTables, pos: MatrixPos) -> (r: HidUsage)
    ensures
        r == device_default(*kb, *tables, pos),
{
    match kb.matrix_default(pos.pos as usize) {
        Some(code) => HidUsage { code },
        None => default_keycode(tables, pos),
    }
}

/// Write a key's action on a layer of the active profile.
pub fn set_key(
    kb: &KeyboardInterface,
    index: MatrixPos,
    layer: Layer,
    action: &KeyAction,
    replies: &[Reply],
) -> (r: Step<()>)
    ensures
        r@ == sent(
            seen(replies@),
            seq![layer_write(kb.active_profile, index.pos, layer, action.encoded())],
        ),
{
    kb.set_layer_config(layer, index.pos, action.to_config_bytes(), replies)
}

/// The request that resets a key. The base layer gets the factory keycode, since an empty
/// entry there silences the key; an overlay layer is emptied.
pub open spec fn reset_write(
    kb: KeyboardInterface,
    tables: KeyTables,
    index: MatrixPos,
    layer: Layer,
) -> RequestView {
    if layer == Layer::Base {
        usage_write(
            kb.active_profile,
            index.pos,
            device_default(kb, tables, index).code,
            true,
            KeymatrixLayer::Layer0,
        )
    } else {
        layer_write(kb.active_profile, index.pos, layer, seq![0u8, 0u8, 0u8, 0u8])
    }
}

/// Reset a key to its firmware default on a layer of the active profile.
pub fn reset_key(
    kb: &KeyboardInterface,
    tables: &KeyTables,
    index: MatrixPos,
    layer: Layer,
    replies: &[Reply],
) -> (r: Step<()>)
    ensures
        r@ == sent(seen(replies@), seq![reset_write(*kb, *tables, index, layer)]),
{
    match layer {
        Layer::Base => kb.set_keymatrix(
            kb.active_profile(),
            index.pos,
            device_default_keycode(kb, tables, index).code,
            true,
            KeymatrixLayer::Layer0,
            replies,
        ),
        _ => kb.reset_key(layer, index.pos, replies),
    }
}

/// A key that is reset is not remapped any more, on any layer: what is written reads as
/// the factory default or as an empty slot.
pub proof fn reset_is_no_remap(
    kb: KeyboardInterface,
    tables: KeyTables,
    index: MatrixPos,
    layer: Layer,
)
    ensures
        match reset_write(kb, tables, index, layer) {
            RequestView::KeyMatrix { config, .. } => !remapped(
                config,
                device_default(kb, tables, index),
            ) && (layer != Layer::Base ==> is_empty_slot(config)),
            RequestView::FnKey { config, .. } => layer == Layer::Fn && is_empty_slot(config),
            _ => false,
        },
{
}

/// A reset targets the profile and the position it was asked for.
pub proof fn reset_stays_on_its_key(
    kb: KeyboardInterface,
    tables: KeyTables,
    index: MatrixPos,
    layer: Layer,
)
    ensures
        match reset_write(kb, tables, index, layer) {
            RequestView::KeyMatrix { profile, key_index, layer: km, .. } => profile
                == kb.active_profile && key_index == index.pos && layer.keymatrix() == Some(km),
            RequestView::FnKey { profile, key_index, .. } => profile == kb.active_profile
                && key_index == index.pos && layer == Layer::Fn,
            _ => false,
        },
{
}

/// A physical key's complete configuration, fused across the keymatrix and the trigger
/// tables.
#[derive(Debug, Clone, PartialEq, Eq)]
pub struct KeyRow {
    pub index: MatrixPos,
    /// Display name.
    pub position: String,
    /// Base mode. It says what the keymatrix layers are: in plain mode `outputs[0]` is
    /// the key, in Dynamic Keystroke mode all four are output slots.
    pub mode: KeyMode,
    pub rapid_trigger: bool,
    pub actuation: u16,
    pub release: u16,
    pub rt_press: u16,
    pub rt_lift: u16,
    pub bottom_dz: u16,
    pub top_dz: u16,
    /// Keymatrix output per layer.
    pub outputs: [KeyAction; 4],
    /// Whether each keymatrix layer differs from its factory default.
    pub output_remapped: [bool; 4],
    /// Fn binding, if there is one.
    pub fn_action: Option<KeyAction>,
    /// Keymatrix bytes per layer, exactly as the device holds them: encoding an action
    /// again can move a lone usage.
    pub raw: [[u8; 4]; 4],
    /// Fn table bytes, `None` when they could not be read.
    pub fn_raw: Option<[u8; 4]>,
    /// Dynamic Keystroke travel.
    pub dks_travel: u16,
    /// Dynamic Keystroke packed bytes.
    pub dks_modes: [u8; 4],
    /// Mod-Tap decision time in milliseconds.
    pub modtap_ms: u16,
    /// Snap-Tap partner, if bound.
    pub snaptap_partner: Option<u8>,
}

/// A [`KeyRow`] with sequences in place of arrays and text.
#[verifier::ext_equal]
pub struct KeyRowView {
    pub index: MatrixPos,
    pub position: Seq<char>,
    pub mode: KeyMode,
    pub rapid_trigger: bool,
    pub actuation: u16,
    pub release: u16,
    pub rt_press: u16,
    pub rt_lift: u16,
    pub bottom_dz: u16,
    pub top_dz: u16,
    pub outputs: Seq<KeyAction>,
    pub output_remapped: Seq<bool>,
    pub fn_action: Option<KeyAction>,
    pub raw: Seq<Seq<u8>>,
    pub fn_raw: Option<Seq<u8>>,
    pub dks_travel: u16,
    pub dks_modes: Seq<u8>,
    pub modtap_ms: u16,
    pub snaptap_partner: Option<u8>,
}

/// Arrays of bytes as sequences.
pub open spec fn byte_rows(a: Seq<[u8; 4]>) -> Seq<Seq<u8>> {
    a.map_values(|row: [u8; 4]| row@)
}

impl View for KeyRow {
    type V = KeyRowView;

    open spec fn view(&self) -> KeyRowView {
        KeyRowView {
            index: self.index,
            position: self.position@,
            mode: self.mode,
            rapid_trigger: self.rapid_trigger,
            actuation: self.actuation,
            release: self.release,
            rt_press: self.rt_press,
            rt_lift: self.rt_lift,
            bottom_dz: self.bottom_dz,
            top_dz: self.top_dz,
            outputs: self.outputs@,
            output_remapped: self.output_remapped@,
            fn_action: self.fn_action,
            raw: byte_rows(self.raw@),
            fn_raw: match self.fn_raw {
                Some(b) => Some(b@),
                None => None,
            },
            dks_travel: self.dks_travel,
            dks_modes: self.dks_modes@,
            modtap_ms: self.modtap_ms,
            snaptap_partner: self.snaptap_partner,
        }
    }
}

/// Rows as contracts see them.
pub open spec fn row_views(rows: Seq<KeyRow>) -> Seq<KeyRowView> {
    rows.map_values(|r: KeyRow| r@)
}

impl KeyRow {
    /// Whether the key differs from a plain factory default: a layer is remapped, the
    /// mode is not plain, Rapid Trigger is on, or there is an Fn binding.
    pub fn is_customized(&self) -> (r: bool)
        ensures
            r == (self.mode.code != 0 || self.rapid_trigger || self.output_remapped@.contains(true)
                || self.fn_action is Some),
    {
        let any: bool = self.output_remapped[0] || self.output_remapped[1]
            || self.output_remapped[2] || self.output_remapped[3];
        assert(any == self.output_remapped@.contains(true)) by {
            if self.output_remapped@.contains(true) {
                let k = choose|k: int|
                    0 <= k < self.output_remapped@.len() && self.output_remapped@[k] == true;
                assert(k == 0 || k == 1 || k == 2 || k == 3);
            }
            if any {
                assert(self.output_remapped@[0] || self.output_remapped@[1]
                    || self.output_remapped@[2] || self.output_remapped@[3]);
            }
        }
        self.mode.code != 0 || self.rapid_trigger || any || self.fn_action.is_some()
    }
}

/// Everything that [`build_key_rows`] needs.
pub struct RawKeyRows {
    pub key_count: usize,
    /// Display name per matrix position. An empty one means no physical key here; one that
    /// starts with `#` is no name.
    pub names: Vec<String>,
    /// Factory keycode per matrix position.
    pub defaults: Vec<HidUsage>,
    /// Keymatrix layers 0-3.
    pub layers: [Vec<u8>; 4],
    pub fn_layer: Option<Vec<u8>>,
    pub triggers: TriggerSettings,
    pub dks_travels: Vec<u16>,
    pub dks_blob: Vec<u8>,
    pub modtap: Vec<u16>,
    pub snaptap: Vec<u8>,
}

/// [`RawKeyRows`] with sequences in place of vectors and text.
#[verifier::ext_equal]
pub struct RawView {
    pub key_count: nat,
    pub names: Seq<Seq<char>>,
    pub defaults: Seq<HidUsage>,
    pub layers: Seq<Seq<u8>>,
    pub fn_layer: Option<Seq<u8>>,
    pub triggers: TriggerView,
    pub dks_travels: Seq<u16>,
    pub dks_blob: Seq<u8>,
    pub modtap: Seq<u16>,
    pub snaptap: Seq<u8>,
}

impl View for RawKeyRows {
    type V = RawView;

    open spec fn view(&self) -> RawView {
        RawView {
            key_count: self.key_count as nat,
            names: self.names@.map_values(|s: String| s@),
            defaults: self.defaults@,
            layers: self.layers@.map_values(|v: Vec<u8>| v@),
            fn_layer: match self.fn_layer {
                Some(v) => Some(v@),
                None => None,
            },
            triggers: self.triggers@,
            dks_travels: self.dks_travels@,
            dks_blob: self.dks_blob@,
            modtap: self.modtap@,
            snaptap: self.snaptap@,
        }
    }
}

/// The four bytes of a position in a table, if it reaches that far.
pub open spec fn slot_at(d: Seq<u8>, i: int) -> Option<Seq<u8>> {
    if 0 <= i && i * 4 + 4 <= d.len() {
        Some(d.subrange(i * 4, i * 4 + 4))
    } else {
        None
    }
}

/// Whether a table holds nothing for a position.
pub open spec fn nothing_at(d: Seq<u8>, i: int) -> bool {
    match slot_at(d, i) {
        Some(k) => is_empty_slot(k),
        None => true,
    }
}

/// A position without a name.
pub open spec fn number_name(i: int) -> Seq<char> {
    "#"@ + dec(i as nat)
}

impl RawView {
    /// The display name of a position.
    pub open spec fn name(self, i: int) -> Seq<char> {
        if 0 <= i < self.names.len() {
            self.names[i]
        } else {
            number_name(i)
        }
    }

    /// The factory keycode of a position.
    pub open spec fn default_code(self, i: int) -> HidUsage {
        if 0 <= i < self.defaults.len() {
            self.defaults[i]
        } else {
            HidUsage { code: 0 }
        }
    }

    /// Whether a position is a gap in the matrix: it has no name, and nothing is stored
    /// for it.
    pub open spec fn is_gap(self, i: int) -> bool {
        &&& self.name(i).len() == 0 || self.name(i)[0] == '#'
        &&& nothing_at(self.layers[0], i)
        &&& nothing_at(self.layers[1], i)
        &&& nothing_at(self.layers[2], i)
        &&& nothing_at(self.layers[3], i)
        &&& self.fn_layer matches Some(d) ==> nothing_at(d, i)
    }

    /// The keymatrix bytes of a position on a layer, zeros where the layer does not
    /// reach.
    pub open spec fn bytes(self, l: int, i: int) -> Seq<u8> {
        match slot_at(self.layers[l], i) {
            Some(k) => k,
            None => seq![0u8, 0u8, 0u8, 0u8],
        }
    }

    /// The Fn table bytes of a position.
    pub open spec fn fn_bytes(self, i: int) -> Option<Seq<u8>> {
        match self.fn_layer {
            Some(d) => slot_at(d, i),
            None => None,
        }
    }

    /// Whether a layer of a position differs from its factory default: the base layer
    /// from its keycode, an overlay layer from being empty.
    pub open spec fn layer_remapped(self, l: int, i: int) -> bool {
        if l == 0 {
            remapped(self.bytes(0, i), self.default_code(i))
        } else {
            !is_empty_slot(self.bytes(l, i))
        }
    }

    /// The Snap-Tap partner of a position.
    pub open spec fn partner(self, i: int) -> Option<u8> {
        if 0 <= i < self.snaptap.len() && self.snaptap[i] != SNAPTAP_UNBOUND && self.snaptap[i]
            < self.key_count {
            Some(self.snaptap[i])
        } else {
            None
        }
    }

    /// The row of a position.
    pub open spec fn row(self, i: int) -> KeyRowView {
        let mode = ModeByte::decoded(byte_at(self.triggers.key_modes, i));
        KeyRowView {
            index: MatrixPos { pos: (i % 256) as u8 },
            position: self.name(i),
            mode: mode.base,
            rapid_trigger: mode.rapid_trigger,
            actuation: word_at(self.triggers.press_travel, i),
            release: word_at(self.triggers.lift_travel, i),
            rt_press: word_at(self.triggers.rt_press, i),
            rt_lift: word_at(self.triggers.rt_lift, i),
            bottom_dz: word_at(self.triggers.bottom_deadzone, i),
            top_dz: word_at(self.triggers.top_deadzone, i),
            outputs: Seq::new(4, |l: int| KeyAction::decoded(self.bytes(l, i))),
            output_remapped: Seq::new(4, |l: int| self.layer_remapped(l, i)),
            fn_action: match self.fn_bytes(i) {
                Some(k) => if is_empty_slot(k) {
                    None
                } else {
                    Some(KeyAction::decoded(k))
                },
                None => None,
            },
            raw: Seq::new(4, |l: int| self.bytes(l, i)),
            fn_raw: self.fn_bytes(i),
            dks_travel: word_at(self.dks_travels, i),
            dks_modes: blob_modes(self.dks_blob, i),
            modtap_ms: word_at(self.modtap, i),
            snaptap_partner: self.partner(i),
        }
    }

    /// The rows of the first `n` positions, gaps left out.
    pub open spec fn rows(self, n: nat) -> Seq<KeyRowView>
        decreases n,
    {
        if n == 0 {
            Seq::empty()
        } else if self.is_gap(n - 1) {
            self.rows((n - 1) as nat)
        } else {
            self.rows((n - 1) as nat).push(self.row(n - 1))
        }
    }
}

/// The four bytes of a position in a table, if it reaches that far.
fn get_slot(d: &Vec<u8>, i: usize) -> (r: Option<[u8; 4]>)
    ensures
        match r {
            Some(k) => slot_at(d@, i as int) == Some(k@),
            None => slot_at(d@, i as int) is None,
        },
{
    let n: usize = d.len();
    if i < n / 4 {
        let at: usize = i * 4;
        let k: [u8; 4] = [d[at], d[at + 1], d[at + 2], d[at + 3]];
        assert(k@ =~= d@.subrange(i * 4, i * 4 + 4));
        Some(k)
    } else {
        None
    }
}

/// Whether a slot is empty.
fn slot_is_empty(k: &[u8; 4]) -> (r: bool)
    ensures
        r == is_empty_slot(k@),
{
    let r: bool = k[0] == 0 && k[1] == 0 && k[2] == 0 && k[3] == 0;
    assert(is_empty_slot(k@) == (k@ =~= seq![0u8, 0u8, 0u8, 0u8]));
    r
}

/// Whether a table holds nothing for a position.
fn holds_nothing(d: &Vec<u8>, i: usize) -> (r: bool)
    ensures
        r == nothing_at(d@, i as int),
{
    match get_slot(d, i) {
        Some(k) => slot_is_empty(&k),
        None => true,
    }
}

/// A position without a name.
fn number_label(i: usize) -> (r: String)
    ensures
        r@ == number_name(i as int),
{
    let mut out: String = "#".to_owned();
    push_dec(&mut out, i as u64);
    out
}

impl RawKeyRows {
    /// The display name of a position.
    fn name_of(&self, i: usize) -> (r: String)
        ensures
            r@ == self@.name(i as int),
    {
        if i < self.names.len() {
            self.names[i].clone()
        } else {
            number_label(i)
        }
    }

    /// Whether a position is a gap in the matrix.
    fn gap_at(&self, name: &String, i: usize) -> (r: bool)
        requires
            name@ == self@.name(i as int),
        ensures
            r == self@.is_gap(i as int),
    {
        let unnamed: bool = name.as_str().unicode_len() == 0 || name.as_str().get_char(0) == '#';
        let fn_empty: bool = match &self.fn_layer {
            Some(d) => holds_nothing(d, i),
            None => true,
        };
        unnamed && holds_nothing(&self.layers[0], i) && holds_nothing(&self.layers[1], i)
            && holds_nothing(&self.layers[2], i) && holds_nothing(&self.layers[3], i) && fn_empty
    }

    /// The keymatrix bytes of a position on a layer.
    fn layer_bytes(&self, l: usize, i: usize) -> (r: [u8; 4])
        requires
            l < 4,
        ensures
            r@ == self@.bytes(l as int, i as int),
    {
        match get_slot(&self.layers[l], i) {
            Some(k) => k,
            None => {
                let k: [u8; 4] = [0, 0, 0, 0];
                assert(k@ =~= seq![0u8, 0u8, 0u8, 0u8]);
                k
            },
        }
    }

    /// The row of a position.
    fn build_row(&self, name: String, i: usize) -> (r: KeyRow)
        requires
            name@ == self@.name(i as int),
        ensures
            r@ == self@.row(i as int),
    {
        let default_code: HidUsage = if i < self.defaults.len() {
            self.defaults[i]
        } else {
            HidUsage { code: 0 }
        };
        let t: &TriggerSettings = &self.triggers;
        let mode: ModeByte = ModeByte::from_u8(get_byte(t.key_modes.as_slice(), i));
        let b0: [u8; 4] = self.layer_bytes(0, i);
        let b1: [u8; 4] = self.layer_bytes(1, i);
        let b2: [u8; 4] = self.layer_bytes(2, i);
        let b3: [u8; 4] = self.layer_bytes(3, i);
        let base: Vec<u8> = vec![b0[0], b0[1], b0[2], b0[3]];
        assert(base@ =~= b0@);
        let fn_raw: Option<[u8; 4]> = match &self.fn_layer {
            Some(d) => get_slot(d, i),
            None => None,
        };
        let fn_action: Option<KeyAction> = match fn_raw {
            Some(k) => if slot_is_empty(&k) {
                None
            } else {
                Some(KeyAction::from_config_bytes(k))
            },
            None => None,
        };
        let snaptap_partner: Option<u8> = if i < self.snaptap.len() && self.snaptap[i]
            != SNAPTAP_UNBOUND && (self.snaptap[i] as usize) < self.key_count {
            Some(self.snaptap[i])
        } else {
            None
        };
        let outputs: [KeyAction; 4] = [
            KeyAction::from_config_bytes(b0),
            KeyAction::from_config_bytes(b1),
            KeyAction::from_config_bytes(b2),
            KeyAction::from_config_bytes(b3),
        ];
        let output_remapped: [bool; 4] = [
            is_user_remap(base.as_slice(), default_code),
            !slot_is_empty(&b1),
            !slot_is_empty(&b2),
            !slot_is_empty(&b3),
        ];
        let raw: [[u8; 4]; 4] = [b0, b1, b2, b3];
        let ghost expected = self@.row(i as int);
        assert(outputs@ =~= expected.outputs);
        assert(output_remapped@ =~= expected.output_remapped);
        assert(byte_rows(raw@) =~= expected.raw);
        KeyRow {
            index: MatrixPos { pos: (i % 256) as u8 },
            position: name,
            mode: mode.base,
            rapid_trigger: mode.rapid_trigger,
            actuation: get_word(&t.press_travel, i),
            release: get_word(&t.lift_travel, i),
            rt_press: get_word(&t.rt_press, i),
            rt_lift: get_word(&t.rt_lift, i),
            bottom_dz: get_word(&t.bottom_deadzone, i),
            top_dz: get_word(&t.top_deadzone, i),
            outputs,
            output_remapped,
            fn_action,
            raw,
            fn_raw,
            dks_travel: get_word(&self.dks_travels, i),
            dks_modes: DksConfig::trigger_modes_from_blob(self.dks_blob.as_slice(), i),
            modtap_ms: get_word(&self.modtap, i),
            snaptap_partner,
        }
    }
}

/// Fuse the tables into one row per physical key.
///
/// A position that the database does not name is still real storage. It is dropped only
/// when it is also entirely empty: those are the matrix's gaps.
pub fn build_key_rows(raw: &RawKeyRows) -> (r: Vec<KeyRow>)
    ensures
        row_views(r@) == raw@.rows(raw.key_count as nat),
{
    let mut rows: Vec<KeyRow> = Vec::new();
    let mut i: usize = 0;
    assert(row_views(rows@) =~= raw@.rows(0));
    while i < raw.key_count
        invariant
            i <= raw.key_count,
            row_views(rows@) == raw@.rows(i as nat),
        decreases raw.key_count - i,
    {
        let name: String = raw.name_of(i);
        if !raw.gap_at(&name, i) {
            let ghost before = rows@;
            rows.push(raw.build_row(name, i));
            assert(row_views(rows@) =~= row_views(before).push(raw@.row(i as int)));
        }
        i += 1;
    }
    rows
}

/// Every position that is no gap has its row, with its own index; no row stands for a
/// gap.
#[verifier::spinoff_prover]
pub proof fn rows_are_the_positions_in_use(raw: RawView, n: nat)
    requires
        n <= 256,
    ensures
        forall|i: int|
            0 <= i < n && !raw.is_gap(i) ==> raw.rows(n).contains(#[trigger] raw.row(i)),
        forall|k: int|
            0 <= k < raw.rows(n).len() ==> {
                let i = (#[trigger] raw.rows(n)[k]).index.pos as int;
                i < n && !raw.is_gap(i) && raw.rows(n)[k] == raw.row(i)
            },
        forall|a: int, b: int|
            0 <= a < b < raw.rows(n).len() ==> (#[trigger] raw.rows(n)[a]).index.pos < (
            #[trigger] raw.rows(n)[b]).index.pos,
    decreases n,
{
    if n > 0 {
        let m = (n - 1) as nat;
        rows_are_the_positions_in_use(raw, m);
        let old_rows = raw.rows(m);
        let rows = raw.rows(n);
        if !raw.is_gap(m as int) {
            assert(rows == old_rows.push(raw.row(m as int)));
            assert(raw.row(m as int).index.pos == m);
        } else {
            assert(rows == old_rows);
        }
        assert forall|i: int| 0 <= i < n && !raw.is_gap(i) implies rows.contains(
            #[trigger] raw.row(i),
        ) by {
            if i < m {
                assert(old_rows.contains(raw.row(i)));
                let k = choose|k: int| 0 <= k < old_rows.len() && old_rows[k] == raw.row(i);
                assert(rows[k] == raw.row(i));
            } else {
                assert(rows.last() == raw.row(i));
            }
        }
        assert forall|k: int| 0 <= k < rows.len() implies {
            let i = (#[trigger] rows[k]).index.pos as int;
            i < n && !raw.is_gap(i) && rows[k] == raw.row(i)
        } by {
            if k < old_rows.len() {
                assert(rows[k] == old_rows[k]);
            } else {
                assert(rows[k] == raw.row(m as int));
            }
        }
        assert forall|a: int, b: int| 0 <= a < b < rows.len() implies (#[trigger] rows[a]).index.pos
            < (#[trigger] rows[b]).index.pos by {
            assert(rows[a] == old_rows[a]);
            if b < old_rows.len() {
                assert(rows[b] == old_rows[b]);
            }
        }
    }
}

/// A row keeps the bytes of the device: writing them back changes nothing.
pub proof fn rows_keep_device_bytes(raw: RawView, i: int, l: int)
    requires
        0 <= l < 4,
        0 <= i,
        i * 4 + 4 <= raw.layers[l].len(),
    ensures
        raw.row(i).raw[l] == raw.layers[l].subrange(i * 4, i * 4 + 4),
{
}

/// How far a load has got. `done` counts the stages that are through; the one named is
/// in flight.
#[derive(Debug, Clone, Copy, PartialEq, Eq)]
pub struct LoadStage {
    pub done: usize,
    pub total: usize,
    pub label: &'static str,
}

/// Stages of a load.
pub const LOAD_STAGE_COUNT: usize = 7;

/// The name of a stage.
pub open spec fn stage_label(i: int) -> Seq<char> {
    if i == 0 {
        "keymatrix layers"@
    } else if i == 1 {
        "Fn layer"@
    } else if i == 2 {
        "trigger settings"@
    } else if i == 3 {
        "DKS travel"@
    } else if i == 4 {
        "DKS modes"@
    } else if i == 5 {
        "mod-tap times"@
    } else {
        "SnapTap bindings"@
    }
}

impl LoadStage {
    /// The stage with a number.
    pub fn numbered(i: usize) -> (r: LoadStage)
        requires
            i < LOAD_STAGE_COUNT,
        ensures
            r.done == i,
            r.total == LOAD_STAGE_COUNT,
            r.label@ == stage_label(i as int),
    {
        let label: &'static str = match i {
            0 => "keymatrix layers",
            1 => "Fn layer",
            2 => "trigger settings",
            3 => "DKS travel",
            4 => "DKS modes",
            5 => "mod-tap times",
            _ => "SnapTap bindings",
        };
        LoadStage { done: i, total: LOAD_STAGE_COUNT, label }
    }

    /// The stage as text: `label (number/total)`.
    pub fn text(&self) -> (r: String)
        requires
            self.done < usize::MAX,
        ensures
            r@ == self.label@ + " ("@ + dec((self.done + 1) as nat) + "/"@ + dec(self.total as nat)
                + ")"@,
    {
        let mut out: String = self.label.to_owned();
        out.append(" (");
        push_dec(&mut out, (self.done + 1) as u64);
        out.append("/");
        push_dec(&mut out, self.total as u64);
        out.append(")");
        out
    }
}

/// Where a load stands.
pub enum Loading {
    /// This request is next; it belongs to the stage.
    Ask { stage: usize, request: Request },
    /// The load is over; this is the stage that it has got to.
    Done { stage: usize, result: Result<Vec<KeyRow>, KeyboardError> },
}

/// A [`Loading`] as contracts see it.
pub enum LoadingView {
    Ask { stage: nat, request: RequestView },
    Done { stage: nat, result: Result<Seq<KeyRowView>, ErrorView> },
}

impl View for Loading {
    type V = LoadingView;

    open spec fn view(&self) -> LoadingView {
        match *self {
            Loading::Ask { stage, request } => LoadingView::Ask {
                stage: stage as nat,
                request: request@,
            },
            Loading::Done { stage, result } => LoadingView::Done {
                stage: stage as nat,
                result: match result {
                    Ok(rows) => Ok(row_views(rows@)),
                    Err(e) => Err(e@),
                },
            },
        }
    }
}

/// The stage that a load has got to.
pub open spec fn stage_of(load: LoadingView) -> nat {
    match load {
        LoadingView::Ask { stage, .. } => stage,
        LoadingView::Done { stage, .. } => stage,
    }
}

/// The numbers of the stages to tell of in a load that has got to `stage`, if the first
/// `told` stages are told.
pub open spec fn due(told: nat, stage: nat) -> Seq<nat> {
    Seq::new(
        if told <= stage {
            (stage + 1 - told) as nat
        } else {
            0
        },
        |i: int| (told + i) as nat,
    )
}

/// The stages to tell of in a load that has got to `stage`, if the first `told` stages are
/// told. A stage without anything to read is told with the one behind it.
pub fn stages_due(told: usize, stage: usize) -> (r: Vec<LoadStage>)
    requires
        stage < LOAD_STAGE_COUNT,
    ensures
        r@.map_values(|s: LoadStage| s.done as nat) == due(told as nat, stage as nat),
        forall|k: int|
            0 <= k < r@.len() ==> (#[trigger] r@[k]).total == LOAD_STAGE_COUNT && r@[k].label@
                == stage_label(told + k),
{
    let mut out: Vec<LoadStage> = Vec::new();
    let mut i: usize = told;
    while i <= stage
        invariant
            stage < LOAD_STAGE_COUNT,
            told <= i,
            told <= stage ==> i <= stage + 1,
            told > stage ==> i == told,
            out@.len() == i - told,
            forall|k: int|
                0 <= k < out@.len() ==> (#[trigger] out@[k]).done == told + k && out@[k].total
                    == LOAD_STAGE_COUNT && out@[k].label@ == stage_label(told + k),
        decreases stage + 1 - i,
    {
        out.push(LoadStage::numbered(i));
        i += 1;
    }
    assert(out@.map_values(|s: LoadStage| s.done as nat) =~= due(told as nat, stage as nat));
    out
}

/// The display name of a position: the device's, or else the shared one, or else its
/// number. `"?"` is the mark of no name in both tables.
pub open spec fn shown_name(kb: KeyboardInterface, tables: KeyTables, i: int) -> Seq<char> {
    let device = kb.name_at(i);
    if device.len() > 0 && device != "?"@ {
        device
    } else if tables.name(i) == "?"@ {
        number_name(i)
    } else {
        tables.name(i)
    }
}

/// Reading the keymatrix layers from `got.len()` on.
pub open spec fn layers_read(
    c: CommandTable,
    profile: Profile,
    got: Seq<Seq<u8>>,
    replies: Seq<ReplyView>,
    at: nat,
) -> PartView<Seq<Seq<u8>>>
    decreases 4 - got.len(),
{
    if got.len() >= 4 {
        PartView::Found { value: got, next: at }
    } else {
        match keymatrix_read(
            c.get_keymatrix,
            profile,
            KeymatrixLayer::at(got.len() as int),
            KEYMATRIX_PAGES as nat,
            replies,
            at,
        ) {
            PartView::Ask(r) => PartView::Ask(r),
            PartView::Failed { error, next } => PartView::Failed { error, next },
            PartView::Found { value, next } => layers_read(
                c,
                profile,
                got.push(value),
                replies,
                next,
            ),
        }
    }
}

/// Loading the four tables of special modes, each of which may be missing: from the
/// stage 3 on.
pub open spec fn modes_load(
    kb: KeyboardInterface,
    tables: KeyTables,
    layers: Seq<Seq<u8>>,
    fn_layer: Option<Seq<u8>>,
    triggers: TriggerView,
    replies: Seq<ReplyView>,
    at: nat,
) -> LoadingView {
    match optional(dks_travels_read(kb.commands, kb.key_count, replies, at)) {
        PartView::Ask(request) => LoadingView::Ask { stage: 3, request },
        PartView::Failed { error, .. } => LoadingView::Done { stage: 3, result: Err(error) },
        PartView::Found { value: dks_travels, next } => match optional(
            dks_blob_read(kb.commands, replies, next),
        ) {
            PartView::Ask(request) => LoadingView::Ask { stage: 4, request },
            PartView::Failed { error, .. } => LoadingView::Done { stage: 4, result: Err(error) },
            PartView::Found { value: dks_blob, next } => match optional(
                modtap_read(kb.commands, kb.key_count, replies, next),
            ) {
                PartView::Ask(request) => LoadingView::Ask { stage: 5, request },
                PartView::Failed { error, .. } => LoadingView::Done { stage: 5, result: Err(error) },
                PartView::Found { value: modtap, next } => match optional(
                    snaptap_read(kb.commands, kb.key_count, replies, next),
                ) {
                    PartView::Ask(request) => LoadingView::Ask { stage: 6, request },
                    PartView::Failed { error, .. } => LoadingView::Done { stage: 6, result: Err(error) },
                    PartView::Found { value: snaptap, .. } => LoadingView::Done {
                        stage: 6,
                        result: Ok(
                            (RawView {
                                key_count: MATRIX_POSITIONS as nat,
                                names: Seq::new(
                                    MATRIX_POSITIONS as nat,
                                    |i: int| shown_name(kb, tables, i),
                                ),
                                defaults: Seq::new(
                                    MATRIX_POSITIONS as nat,
                                    |i: int|
                                        device_default(kb, tables, MatrixPos { pos: i as u8 }),
                                ),
                                layers,
                                fn_layer,
                                triggers,
                                dks_travels,
                                dks_blob,
                                modtap,
                                snaptap,
                            }).rows(MATRIX_POSITIONS as nat),
                        ),
                    },
                },
            },
        },
    }
}

/// Loading all rows: the keymatrix layers, the Fn table (which may be missing), the
/// trigger tables, and the tables of special modes.
pub open spec fn rows_load(
    kb: KeyboardInterface,
    tables: KeyTables,
    sys: u8,
    replies: Seq<ReplyView>,
) -> LoadingView {
    match layers_read(kb.commands, kb.active_profile, Seq::empty(), replies, 0) {
        PartView::Ask(request) => LoadingView::Ask { stage: 0, request },
        PartView::Failed { error, .. } => LoadingView::Done { stage: 0, result: Err(error) },
        PartView::Found { value: layers, next } => match fn_read(
            kb.commands.get_fn,
            sys,
            kb.active_profile,
            KEYMATRIX_PAGES as nat,
            replies,
            next,
        ) {
            PartView::Ask(request) => LoadingView::Ask { stage: 1, request },
            PartView::Failed { next, .. } => triggers_load(kb, tables, layers, None, replies, next),
            PartView::Found { value, next } => triggers_load(
                kb,
                tables,
                layers,
                Some(value),
                replies,
                next,
            ),
        },
    }
}

/// Loading the trigger tables and what follows them.
pub open spec fn triggers_load(
    kb: KeyboardInterface,
    tables: KeyTables,
    layers: Seq<Seq<u8>>,
    fn_layer: Option<Seq<u8>>,
    replies: Seq<ReplyView>,
    at: nat,
) -> LoadingView {
    match triggers_read(kb.commands, kb.has_magnetism, kb.key_count, replies, at) {
        PartView::Ask(request) => LoadingView::Ask { stage: 2, request },
        PartView::Failed { error, .. } => LoadingView::Done { stage: 2, result: Err(error) },
        PartView::Found { value: triggers, next } => modes_load(
            kb,
            tables,
            layers,
            fn_layer,
            triggers,
            replies,
            next,
        ),
    }
}

/// The display names of all positions.
fn shown_names(kb: &KeyboardInterface, tables: &KeyTables) -> (r: Vec<String>)
    ensures
        r@.map_values(|s: String| s@) == Seq::new(
            MATRIX_POSITIONS as nat,
            |i: int| shown_name(*kb, *tables, i),
        ),
{
    let mut out: Vec<String> = Vec::new();
    let mut i: usize = 0;
    while i < MATRIX_POSITIONS
        invariant
            i <= MATRIX_POSITIONS,
            out@.len() == i,
            forall|k: int| 0 <= k < i ==> (#[trigger] out@[k])@ == shown_name(*kb, *tables, k),
        decreases MATRIX_POSITIONS - i,
    {
        let device: &str = kb.matrix_key_name(i);
        if device.unicode_len() > 0 && !str_eq(device, "?") {
            out.push(device.to_owned());
        } else {
            let generic: &str = tables.key_name(MatrixPos { pos: i as u8 });
            if str_eq(generic, "?") {
                out.push(number_label(i));
            } else {
                out.push(generic.to_owned());
            }
        }
        i += 1;
    }
    assert(out@.map_values(|s: String| s@) =~= Seq::new(
        MATRIX_POSITIONS as nat,
        |i: int| shown_name(*kb, *tables, i),
    ));
    out
}

/// The factory keycodes of all positions.
fn factory_codes(kb: &KeyboardInterface, tables: &KeyTables) -> (r: Vec<HidUsage>)
    ensures
        r@ == Seq::new(
            MATRIX_POSITIONS as nat,
            |i: int| device_default(*kb, *tables, MatrixPos { pos: i as u8 }),
        ),
{
    let mut out: Vec<HidUsage> = Vec::new();
    let mut i: usize = 0;
    while i < MATRIX_POSITIONS
        invariant
            i <= MATRIX_POSITIONS,
            out@.len() == i,
            forall|k: int|
                0 <= k < i ==> #[trigger] out@[k] == device_default(
                    *kb,
                    *tables,
                    MatrixPos { pos: k as u8 },
                ),
        decreases MATRIX_POSITIONS - i,
    {
        out.push(device_default_keycode(kb, tables, MatrixPos { pos: i as u8 }));
        i += 1;
    }
    assert(out@ =~= Seq::new(
        MATRIX_POSITIONS as nat,
        |i: int| device_default(*kb, *tables, MatrixPos { pos: i as u8 }),
    ));
    out
}

/// Load the rows of every position that the firmware's keymatrix holds, named or not.
///
/// `sys` selects the Fn table's OS variant (0 = Windows, 1 = Mac). The Fn table and the
/// tables of special modes may be missing on older firmware.
pub fn load_key_rows(kb: &KeyboardInterface, tables: &KeyTables, sys: u8, replies: &[Reply]) -> (r: Loading)
    ensures
        r@ == rows_load(*kb, *tables, sys, seen(replies@)),
{
    let profile: Profile = kb.active_profile();
    let mut layers: [Vec<u8>; 4] = [Vec::new(), Vec::new(), Vec::new(), Vec::new()];
    let mut at: usize = 0;
    let mut l: usize = 0;
    let ghost got = Seq::<Seq<u8>>::empty();
    while l < 4
        invariant
            l <= 4,
            at <= replies@.len(),
            profile == kb.active_profile,
            got.len() == l,
            forall|k: int| 0 <= k < l ==> got[k] == #[trigger] layers@[k]@,
            layers_read(kb.commands, kb.active_profile, Seq::empty(), seen(replies@), 0)
                == layers_read(kb.commands, kb.active_profile, got, seen(replies@), at as nat),
        decreases 4 - l,
    {
        let layer: KeymatrixLayer = match KeymatrixLayer::dks_slot(l as u8) {
            Some(layer) => layer,
            None => KeymatrixLayer::Layer0,
        };
        match kb.keymatrix_part(profile, layer, KEYMATRIX_PAGES, replies, at) {
            Part::Ask(request) => {
                return Loading::Ask { stage: 0, request };
            },
            Part::Failed { error, .. } => {
                return Loading::Done { stage: 0, result: Err(error) };
            },
            Part::Found { value, next } => {
                proof {
                    got = got.push(value@);
                }
                layers[l] = value;
                at = next;
            },
        }
        l += 1;
    }
    assert(layers@.map_values(|v: Vec<u8>| v@) =~= got);
    let (fn_layer, after_fn): (Option<Vec<u8>>, usize) = match kb.fn_keymatrix_part(
        profile,
        sys,
        KEYMATRIX_PAGES,
        replies,
        at,
    ) {
        Part::Ask(request) => {
            return Loading::Ask { stage: 1, request };
        },
        Part::Failed { next, .. } => (None, next),
        Part::Found { value, next } => (Some(value), next),
    };
    let (triggers, after_triggers): (TriggerSettings, usize) = match kb.triggers_part(
        replies,
        after_fn,
    ) {
        Part::Ask(request) => {
            return Loading::Ask { stage: 2, request };
        },
        Part::Failed { error, .. } => {
            return Loading::Done { stage: 2, result: Err(error) };
        },
        Part::Found { value, next } => (value, next),
    };
    load_modes(kb, tables, layers, fn_layer, triggers, replies, after_triggers)
}

/// Load the tables of special modes, and build the rows.
fn load_modes(
    kb: &KeyboardInterface,
    tables: &KeyTables,
    layers: [Vec<u8>; 4],
    fn_layer: Option<Vec<u8>>,
    triggers: TriggerSettings,
    replies: &[Reply],
    at: usize,
) -> (r: Loading)
    requires
        at <= replies@.len(),
    ensures
        r@ == modes_load(
            *kb,
            *tables,
            layers@.map_values(|v: Vec<u8>| v@),
            match fn_layer {
                Some(v) => Some(v@),
                None => None,
            },
            triggers@,
            seen(replies@),
            at as nat,
        ),
{
    let (dks_travels, at1): (Vec<u16>, usize) = match kb.dks_travels_part(replies, at) {
        Part::Ask(request) => {
            return Loading::Ask { stage: 3, request };
        },
        Part::Failed { next, .. } => (Vec::new(), next),
        Part::Found { value, next } => (value, next),
    };
    let (dks_blob, at2): (Vec<u8>, usize) = match kb.dks_blob_part(replies, at1) {
        Part::Ask(request) => {
            return Loading::Ask { stage: 4, request };
        },
        Part::Failed { next, .. } => (Vec::new(), next),
        Part::Found { value, next } => (value, next),
    };
    let (modtap, at3): (Vec<u16>, usize) = match kb.modtap_part(replies, at2) {
        Part::Ask(request) => {
            return Loading::Ask { stage: 5, request };
        },
        Part::Failed { next, .. } => (Vec::new(), next),
        Part::Found { value, next } => (value, next),
    };
    let snaptap: Vec<u8> = match kb.snaptap_part(replies, at3) {
        Part::Ask(request) => {
            return Loading::Ask { stage: 6, request };
        },
        Part::Failed { .. } => Vec::new(),
        Part::Found { value, .. } => value,
    };
    let raw: RawKeyRows = RawKeyRows {
        key_count: MATRIX_POSITIONS,
        names: shown_names(kb, tables),
        defaults: factory_codes(kb, tables),
        layers,
        fn_layer,
        triggers,
        dks_travels,
        dks_blob,
        modtap,
        snaptap,
    };
    let rows: Vec<KeyRow> = build_key_rows(&raw);
    Loading::Done { stage: 6, result: Ok(rows) }
}

/// One more reply carries the keymatrix layers further, or leaves them as they are.
proof fn lemma_layers_grow(
    c: CommandTable,
    profile: Profile,
    got: Seq<Seq<u8>>,
    replies: Seq<ReplyView>,
    more: ReplyView,
    at: nat,
)
    requires
        at <= replies.len(),
    ensures
        grows(
            layers_read(c, profile, got, replies, at),
            layers_read(c, profile, got, replies.push(more), at),
            replies.len(),
        ),
    decreases 4 - got.len(),
{
    if got.len() < 4 {
        let layer = KeymatrixLayer::at(got.len() as int);
        let pages = keymatrix_pages(c.get_keymatrix, profile, layer, KEYMATRIX_PAGES as nat);
        let all = replies.push(more);
        blocks_grow(pages, replies, more, at);
        match keymatrix_read(c.get_keymatrix, profile, layer, KEYMATRIX_PAGES as nat, replies, at) {
            PartView::Found { value, next } => {
                lemma_layers_grow(c, profile, got.push(value), replies, more, next);
            },
            PartView::Ask(_) => {
                if let PartView::Found { value, .. } = keymatrix_read(
                    c.get_keymatrix,
                    profile,
                    layer,
                    KEYMATRIX_PAGES as nat,
                    all,
                    at,
                ) {
                    lemma_layers_fresh(c, profile, got.push(value), all);
                }
            },
            PartView::Failed { .. } => {},
        }
    }
}

/// The keymatrix layers start where the replies end.
proof fn lemma_layers_fresh(
    c: CommandTable,
    profile: Profile,
    got: Seq<Seq<u8>>,
    replies: Seq<ReplyView>,
)
    ensures
        fresh(layers_read(c, profile, got, replies, replies.len()), replies.len()),
        got.len() < 4 ==> layers_read(c, profile, got, replies, replies.len()) is Ask,
{
    let layer = KeymatrixLayer::at(got.len() as int);
    blocks_start_fresh(
        keymatrix_pages(c.get_keymatrix, profile, layer, KEYMATRIX_PAGES as nat),
        replies,
    );
}

/// Whether a load is over and has its rows.
pub open spec fn succeeded(load: LoadingView) -> bool {
    load matches LoadingView::Done { result: Ok(_), .. }
}

/// Whether a load that stands at `before` may stand at `after` with one more reply: it
/// does not go back, and if there are keys it passes no stage over.
pub open spec fn advances(before: LoadingView, after: LoadingView, key_count: u8) -> bool {
    &&& stage_of(before) <= stage_of(after)
    &&& key_count > 0 ==> stage_of(after) <= stage_of(before) + 1
    &&& key_count > 0 && succeeded(after) ==> stage_of(before) == 6
}

/// Where the tables of special modes start, if there are keys.
proof fn lemma_modes_start(
    kb: KeyboardInterface,
    tables: KeyTables,
    layers: Seq<Seq<u8>>,
    fn_layer: Option<Seq<u8>>,
    triggers: TriggerView,
    replies: Seq<ReplyView>,
)
    ensures
        ({
            let start = modes_load(kb, tables, layers, fn_layer, triggers, replies, replies.len());
            &&& stage_of(start) >= 3
            &&& kb.key_count > 0 ==> start is Ask && stage_of(start) == 3
        }),
{
    let m = kb.commands.magnetism;
    let pages = table_pages(kb.commands, m.dks_travel, page_count(kb.key_count as nat, 32));
    assert(kb.key_count > 0 ==> pages.len() > 0);
    blocks_start_fresh(pages, replies);
}

/// One more reply advances the tables of special modes.
proof fn lemma_modes_advance(
    kb: KeyboardInterface,
    tables: KeyTables,
    layers: Seq<Seq<u8>>,
    fn_layer: Option<Seq<u8>>,
    triggers: TriggerView,
    replies: Seq<ReplyView>,
    more: ReplyView,
    at: nat,
)
    requires
        at <= replies.len(),
        modes_load(kb, tables, layers, fn_layer, triggers, replies, at) is Ask,
    ensures
        advances(
            modes_load(kb, tables, layers, fn_layer, triggers, replies, at),
            modes_load(kb, tables, layers, fn_layer, triggers, replies.push(more), at),
            kb.key_count,
        ),
{
    let c = kb.commands;
    let m = c.magnetism;
    let all = replies.push(more);
    let travels = table_pages(c, m.dks_travel, page_count(kb.key_count as nat, 32));
    let blob = table_pages(c, m.dks_modes, DKS_BLOB_PAGES as nat);
    let times = table_pages(c, m.modtap_time, pages_of(kb.key_count as nat));
    let binds = table_pages(c, m.snaptap_enable, pages_of(kb.key_count as nat));
    assert(kb.key_count > 0 ==> times.len() > 0 && binds.len() > 0);
    blocks_start_fresh(blob, all);
    blocks_start_fresh(times, all);
    blocks_start_fresh(binds, all);
    blocks_grow(travels, replies, more, at);
    if let PartView::Found { next, .. } = optional(dks_travels_read(c, kb.key_count, replies, at)) {
        blocks_grow(blob, replies, more, next);
        if let PartView::Found { next, .. } = optional(dks_blob_read(c, replies, next)) {
            blocks_grow(times, replies, more, next);
            if let PartView::Found { next, .. } = optional(
                modtap_read(c, kb.key_count, replies, next),
            ) {
                blocks_grow(binds, replies, more, next);
            }
        }
    }
}

/// Where the trigger tables start, if there are keys.
proof fn lemma_triggers_start(
    kb: KeyboardInterface,
    tables: KeyTables,
    layers: Seq<Seq<u8>>,
    fn_layer: Option<Seq<u8>>,
    replies: Seq<ReplyView>,
)
    ensures
        ({
            let start = triggers_load(kb, tables, layers, fn_layer, replies, replies.len());
            &&& stage_of(start) >= 2
            &&& kb.key_count > 0 ==> stage_of(start) == 2 && !succeeded(start)
        }),
{
    let c = kb.commands;
    trigger_reads_start_fresh(c, kb.has_magnetism, kb.key_count, replies);
    if let PartView::Found { value, .. } = triggers_read(
        c,
        kb.has_magnetism,
        kb.key_count,
        replies,
        replies.len(),
    ) {
        lemma_modes_start(kb, tables, layers, fn_layer, value, replies);
    }
}

/// One more reply advances the trigger tables and what follows them.
proof fn lemma_triggers_advance(
    kb: KeyboardInterface,
    tables: KeyTables,
    layers: Seq<Seq<u8>>,
    fn_layer: Option<Seq<u8>>,
    replies: Seq<ReplyView>,
    more: ReplyView,
    at: nat,
)
    requires
        at <= replies.len(),
        triggers_load(kb, tables, layers, fn_layer, replies, at) is Ask,
    ensures
        advances(
            triggers_load(kb, tables, layers, fn_layer, replies, at),
            triggers_load(kb, tables, layers, fn_layer, replies.push(more), at),
            kb.key_count,
        ),
{
    let c = kb.commands;
    let all = replies.push(more);
    trigger_reads_grow(c, kb.has_magnetism, kb.key_count, replies, more, at);
    match triggers_read(c, kb.has_magnetism, kb.key_count, replies, at) {
        PartView::Found { value, next } => {
            lemma_modes_advance(kb, tables, layers, fn_layer, value, replies, more, next);
        },
        PartView::Ask(_) => {
            if let PartView::Found { value, .. } = triggers_read(
                c,
                kb.has_magnetism,
                kb.key_count,
                all,
                at,
            ) {
                lemma_modes_start(kb, tables, layers, fn_layer, value, all);
            }
        },
        PartView::Failed { .. } => {},
    }
}

/// One more reply advances a load.
proof fn lemma_load_advances(
    kb: KeyboardInterface,
    tables: KeyTables,
    sys: u8,
    replies: Seq<ReplyView>,
    more: ReplyView,
)
    requires
        rows_load(kb, tables, sys, replies) is Ask,
    ensures
        advances(
            rows_load(kb, tables, sys, replies),
            rows_load(kb, tables, sys, replies.push(more)),
            kb.key_count,
        ),
{
    let c = kb.commands;
    let profile = kb.active_profile;
    let all = replies.push(more);
    let n = KEYMATRIX_PAGES as nat;
    let pages = fn_pages(c.get_fn, sys, profile, n);
    lemma_layers_grow(c, profile, Seq::empty(), replies, more, 0);
    blocks_start_fresh(pages, all);
    match layers_read(c, profile, Seq::empty(), replies, 0) {
        PartView::Found { value: layers, next } => {
            blocks_grow(pages, replies, more, next);
            match fn_read(c.get_fn, sys, profile, n, replies, next) {
                PartView::Found { value, next } => {
                    lemma_triggers_advance(kb, tables, layers, Some(value), replies, more, next);
                },
                PartView::Failed { next, .. } => {
                    lemma_triggers_advance(kb, tables, layers, None, replies, more, next);
                },
                PartView::Ask(_) => {
                    match fn_read(c.get_fn, sys, profile, n, all, next) {
                        PartView::Found { value, .. } => {
                            lemma_triggers_start(kb, tables, layers, Some(value), all);
                        },
                        PartView::Failed { .. } => {
                            lemma_triggers_start(kb, tables, layers, None, all);
                        },
                        PartView::Ask(_) => {},
                    }
                },
            }
        },
        _ => {},
    }
}

/// Whether a load asks at every point before its last reply.
pub open spec fn asks_throughout(
    kb: KeyboardInterface,
    tables: KeyTables,
    sys: u8,
    replies: Seq<ReplyView>,
) -> bool {
    forall|m: int|
        0 <= m < replies.len() ==> rows_load(kb, tables, sys, #[trigger] replies.take(m)) is Ask
}

/// The stage of a load with the first `m` replies.
pub open spec fn stage_at(
    kb: KeyboardInterface,
    tables: KeyTables,
    sys: u8,
    replies: Seq<ReplyView>,
    m: int,
) -> nat {
    stage_of(rows_load(kb, tables, sys, replies.take(m)))
}

/// The stages that are told of in a load up to the first `n` replies, if at each point
/// those that are due are.
pub open spec fn stages_told(
    kb: KeyboardInterface,
    tables: KeyTables,
    sys: u8,
    replies: Seq<ReplyView>,
    n: nat,
) -> Seq<nat>
    decreases n,
{
    let before = if n == 0 {
        Seq::empty()
    } else {
        stages_told(kb, tables, sys, replies, (n - 1) as nat)
    };
    before + due(before.len(), stage_at(kb, tables, sys, replies, n as int))
}

/// A step of a load from one reply to the next.
proof fn lemma_step_advances(
    kb: KeyboardInterface,
    tables: KeyTables,
    sys: u8,
    replies: Seq<ReplyView>,
    m: int,
)
    requires
        0 <= m < replies.len(),
        asks_throughout(kb, tables, sys, replies),
    ensures
        advances(
            rows_load(kb, tables, sys, replies.take(m)),
            rows_load(kb, tables, sys, replies.take(m + 1)),
            kb.key_count,
        ),
{
    assert(rows_load(kb, tables, sys, replies.take(m)) is Ask);
    lemma_load_advances(kb, tables, sys, replies.take(m), replies[m]);
    assert(replies.take(m).push(replies[m]) =~= replies.take(m + 1));
}

/// The stages up to the one that a load has got to, in order.
proof fn lemma_stages_told(
    kb: KeyboardInterface,
    tables: KeyTables,
    sys: u8,
    replies: Seq<ReplyView>,
    n: nat,
)
    requires
        n <= replies.len(),
        asks_throughout(kb, tables, sys, replies),
    ensures
        stages_told(kb, tables, sys, replies, n) == Seq::new(
            stage_at(kb, tables, sys, replies, n as int) + 1,
            |i: int| i as nat,
        ),
    decreases n,
{
    let now = stages_told(kb, tables, sys, replies, n);
    let wanted = Seq::new(
        stage_at(kb, tables, sys, replies, n as int) + 1,
        |i: int| i as nat,
    );
    if n > 0 {
        lemma_stages_told(kb, tables, sys, replies, (n - 1) as nat);
        lemma_step_advances(kb, tables, sys, replies, n - 1);
    }
    assert(now =~= wanted);
}

/// The stages of a load come in order: none is gone back to, each is told of once, and a
/// load that succeeds has told of all seven.
pub proof fn stages_come_in_order(
    kb: KeyboardInterface,
    tables: KeyTables,
    sys: u8,
    replies: Seq<ReplyView>,
)
    requires
        asks_throughout(kb, tables, sys, replies),
    ensures
        forall|m: int|
            0 <= m < replies.len() ==> #[trigger] stage_at(kb, tables, sys, replies, m) <= stage_at(
                kb,
                tables,
                sys,
                replies,
                m + 1,
            ),
        stages_told(kb, tables, sys, replies, replies.len()) == Seq::new(
            stage_of(rows_load(kb, tables, sys, replies)) + 1,
            |i: int| i as nat,
        ),
        succeeded(rows_load(kb, tables, sys, replies)) ==> stages_told(kb, tables, sys, replies, replies.len()) == Seq::new(
            LOAD_STAGE_COUNT as nat,
            |i: int| i as nat,
        ),
{
    assert forall|m: int| 0 <= m < replies.len() implies #[trigger] stage_at(
        kb,
        tables,
        sys,
        replies,
        m,
    ) <= stage_at(kb, tables, sys, replies, m + 1) by {
        lemma_step_advances(kb, tables, sys, replies, m);
    }
    lemma_stages_told(kb, tables, sys, replies, replies.len());
    assert(replies.take(replies.len() as int) =~= replies);
}

/// Only the keymatrix layers and the trigger tables are needed: a load that fails has failed
/// in one of those stages, whatever became of the Fn table and the tables of special modes.
pub proof fn missing_tables_do_not_fail_a_load(
    kb: KeyboardInterface,
    tables: KeyTables,
    sys: u8,
    replies: Seq<ReplyView>,
)
    ensures
        rows_load(kb, tables, sys, replies) is Ask || succeeded(
            rows_load(kb, tables, sys, replies),
        ) || stage_of(rows_load(kb, tables, sys, replies)) == 0 || stage_of(
            rows_load(kb, tables, sys, replies),
        ) == 2,
{
}

/// A stage that a load has got to is one that it asked in, or is in.
proof fn lemma_stage_occurs(
    kb: KeyboardInterface,
    tables: KeyTables,
    sys: u8,
    replies: Seq<ReplyView>,
    n: nat,
    stage: nat,
) -> (m: int)
    requires
        kb.key_count > 0,
        n <= replies.len(),
        asks_throughout(kb, tables, sys, replies),
        stage <= stage_at(kb, tables, sys, replies, n as int),
    ensures
        0 <= m <= n,
        stage_at(kb, tables, sys, replies, m) == stage,
    decreases n,
{
    if stage_at(kb, tables, sys, replies, n as int) == stage {
        n as int
    } else if n == 0 {
        lemma_layers_fresh(kb.commands, kb.active_profile, Seq::empty(), replies.take(0));
        0
    } else {
        lemma_step_advances(kb, tables, sys, replies, n - 1);
        lemma_stage_occurs(kb, tables, sys, replies, (n - 1) as nat, stage)
    }
}

/// On a keyboard with keys, a load that succeeds has asked for something in each of the
/// seven stages.
#[verifier::spinoff_prover]
#[verifier::rlimit(40)]
pub proof fn every_stage_is_asked_in(
    kb: KeyboardInterface,
    tables: KeyTables,
    sys: u8,
    replies: Seq<ReplyView>,
    stage: nat,
)
    requires
        kb.key_count > 0,
        stage < LOAD_STAGE_COUNT,
        asks_throughout(kb, tables, sys, replies),
        succeeded(rows_load(kb, tables, sys, replies)),
    ensures
        exists|m: int|
            0 <= m < replies.len() && rows_load(kb, tables, sys, #[trigger] replies.take(m)) is Ask
                && stage_at(kb, tables, sys, replies, m) == stage,
{
    let n = replies.len();
    assert(replies.take(n as int) =~= replies);
    if n == 0 {
        lemma_layers_fresh(kb.commands, kb.active_profile, Seq::empty(), replies);
    } else {
        lemma_step_advances(kb, tables, sys, replies, n - 1);
        let m = lemma_stage_occurs(kb, tables, sys, replies, (n - 1) as nat, stage);
        assert(rows_load(kb, tables, sys, replies.take(m)) is Ask);
    }
}

} // verus!
