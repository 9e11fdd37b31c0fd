//! Trigger settings of keys with magnetic switches.

use crate::bits::{le16, lemma_byte_masks, word};
use vstd::prelude::*;

verus! {

/// What a key does with its travel. The code zero is plain actuation.
#[derive(Debug, Clone, Copy, PartialEq, Eq, Structural)]
pub struct KeyMode {
    pub code: u8,
}

/// A key's mode as the trigger table stores it: the mode in the low seven bits, the
/// Rapid Trigger flag in the highest.
#[derive(Debug, Clone, Copy, PartialEq, Eq, Structural)]
pub struct ModeByte {
    pub base: KeyMode,
    pub rapid_trigger: bool,
}

/// The bit of a mode byte that turns Rapid Trigger on.
pub const RT_FLAG: u8 = 0x80;

impl ModeByte {
    /// The mode that a byte stands for.
    pub open spec fn decoded(b: u8) -> ModeByte {
        ModeByte { base: KeyMode { code: b % 128 }, rapid_trigger: b >= 128 }
    }

    /// The byte that stands for a mode.
    pub open spec fn encoded(self) -> u8 {
        if self.rapid_trigger {
            (128 + self.base.code % 128) as u8
        } else {
            self.base.code % 128
        }
    }

    /// A mode with or without Rapid Trigger.
    pub fn new(base: KeyMode, rapid_trigger: bool) -> (r: ModeByte)
        ensures
            r == (ModeByte { base, rapid_trigger }),
    {
        ModeByte { base, rapid_trigger }
    }

    /// Read a mode byte.
    pub fn from_u8(b: u8) -> (r: ModeByte)
        ensures
            r == ModeByte::decoded(b),
    {
        proof {
            lemma_byte_masks(b);
        }
        ModeByte { base: KeyMode { code: b & 0x7F }, rapid_trigger: (b & RT_FLAG) != 0 }
    }

    /// The byte that stands for the mode.
    pub fn to_u8(&self) -> (r: u8)
        ensures
            r == self.encoded(),
    {
        let low: u8 = self.base.code % 128;
        if self.rapid_trigger {
            128 + low
        } else {
            low
        }
    }
}

/// A mode byte that is read and written again stays the same.
pub proof fn mode_byte_round_trip(b: u8)
    ensures
        ModeByte::decoded(b).encoded() == b,
{
}

/// A mode that is written and read again stays the same, if its code fits.
pub proof fn mode_round_trip(m: ModeByte)
    requires
        m.base.code < 128,
    ensures
        ModeByte::decoded(m.encoded()) == m,
{
}

/// A mode byte with the Rapid Trigger flag set or cleared.
pub open spec fn with_rapid_trigger(b: u8, enable: bool) -> u8 {
    if enable {
        (128 + b % 128) as u8
    } else {
        b % 128
    }
}

/// Set or clear the Rapid Trigger flag of a mode byte.
pub fn set_rapid_trigger(b: u8, enable: bool) -> (r: u8)
    ensures
        r == with_rapid_trigger(b, enable),
{
    let low: u8 = b % 128;
    if enable {
        128 + low
    } else {
        low
    }
}

/// Changing the Rapid Trigger flag keeps the base mode and sets the flag.
pub proof fn rapid_trigger_keeps_mode(b: u8, enable: bool)
    ensures
        ModeByte::decoded(with_rapid_trigger(b, enable)).base == ModeByte::decoded(b).base,
        ModeByte::decoded(with_rapid_trigger(b, enable)).rapid_trigger == enable,
{
}

/// How many whole words `len` bytes hold, but no more than `count`.
pub open spec fn words_in(len: nat, count: nat) -> nat {
    if len / 2 < count {
        len / 2
    } else {
        count
    }
}

/// The words in `data`, low byte first: whole ones, at most `count`.
pub open spec fn words(data: Seq<u8>, count: nat) -> Seq<u16> {
    Seq::new(words_in(data.len(), count), |i: int| le16(data[2 * i], data[2 * i + 1]))
}

/// The words in `data` with a last odd byte counting as a word of its own; at most
/// `count`.
pub open spec fn words_padded(data: Seq<u8>, count: nat) -> Seq<u16> {
    Seq::new(
        if (data.len() + 1) / 2 < count {
            (data.len() + 1) / 2
        } else {
            count
        },
        |i: int|
            le16(
                data[2 * i],
                if 2 * i + 1 < data.len() {
                    data[2 * i + 1]
                } else {
                    0
                },
            ),
    )
}

/// The words in `data`, at most `count`, with a last odd byte counting as a word of its
/// own.
pub fn decode_words_padded(data: &[u8], count: usize) -> (r: Vec<u16>)
    ensures
        r@ == words_padded(data@, count as nat),
{
    let mut out: Vec<u16> = Vec::new();
    let n: usize = data.len();
    let total: usize = n / 2 + n % 2;
    let limit: usize = if total < count {
        total
    } else {
        count
    };
    let mut i: usize = 0;
    while i < limit
        invariant
            n == data@.len(),
            limit == words_padded(data@, count as nat).len(),
            limit <= n / 2 + n % 2,
            i <= limit,
            out@ == words_padded(data@, count as nat).take(i as int),
        decreases limit - i,
    {
        let hi: u8 = if i < n / 2 {
            data[2 * i + 1]
        } else {
            0
        };
        out.push(word(data[2 * i], hi));
        assert(words_padded(data@, count as nat).take(i + 1) =~= words_padded(
            data@,
            count as nat,
        ).take(i as int).push(words_padded(data@, count as nat)[i as int]));
        i += 1;
    }
    assert(words_padded(data@, count as nat).take(i as int) =~= words_padded(data@, count as nat));
    out
}

/// The trigger settings of all keys, in raw travel units.
#[derive(Debug, Clone, PartialEq, Eq)]
pub struct TriggerSettings {
    pub key_count: usize,
    pub press_travel: Vec<u16>,
    pub lift_travel: Vec<u16>,
    pub rt_press: Vec<u16>,
    pub rt_lift: Vec<u16>,
    pub key_modes: Vec<u8>,
    pub bottom_deadzone: Vec<u16>,
    pub top_deadzone: Vec<u16>,
}

/// [`TriggerSettings`] with sequences in place of vectors.
#[verifier::ext_equal]
pub struct TriggerView {
    pub key_count: nat,
    pub press_travel: Seq<u16>,
    pub lift_travel: Seq<u16>,
    pub rt_press: Seq<u16>,
    pub rt_lift: Seq<u16>,
    pub key_modes: Seq<u8>,
    pub bottom_deadzone: Seq<u16>,
    pub top_deadzone: Seq<u16>,
}

impl View for TriggerSettings {
    type V = TriggerView;

    open spec fn view(&self) -> TriggerView {
        TriggerView {
            key_count: self.key_count as nat,
            press_travel: self.press_travel@,
            lift_travel: self.lift_travel@,
            rt_press: self.rt_press@,
            rt_lift: self.rt_lift@,
            key_modes: self.key_modes@,
            bottom_deadzone: self.bottom_deadzone@,
            top_deadzone: self.top_deadzone@,
        }
    }
}

impl TriggerSettings {
    /// The words in `data`, low byte first: whole ones, at most `count`.
    pub fn decode_u16_values(data: &[u8], count: usize) -> (r: Vec<u16>)
        ensures
            r@ == words(data@, count as nat),
    {
        let mut out: Vec<u16> = Vec::new();
        let n: usize = data.len();
        let limit: usize = if n / 2 < count {
            n / 2
        } else {
            count
        };
        let mut i: usize = 0;
        while i < limit
            invariant
                limit == words_in(data@.len(), count as nat),
                n == data@.len(),
                limit <= n / 2,
                i <= limit,
                out@ == words(data@, count as nat).take(i as int),
            decreases limit - i,
        {
            out.push(word(data[2 * i], data[2 * i + 1]));
            assert(words(data@, count as nat).take(i + 1) =~= words(data@, count as nat).take(
                i as int,
            ).push(words(data@, count as nat)[i as int]));
            i += 1;
        }
        assert(words(data@, count as nat).take(i as int) =~= words(data@, count as nat));
        out
    }
}

/// The trigger settings of one key.
#[derive(Debug, Clone, Copy, PartialEq, Eq, Structural)]
pub struct KeyTriggerSettings {
    pub key_index: u8,
    /// Actuation point, in raw travel units.
    pub actuation: u16,
    /// Release point, in raw travel units.
    pub deactuation: u16,
    pub mode: KeyMode,
    pub rapid_trigger: bool,
}

impl View for KeyTriggerSettings {
    type V = KeyTriggerSettings;

    open spec fn view(&self) -> KeyTriggerSettings {
        *self
    }
}

/// The word at `i`, or zero where there is none.
pub open spec fn word_at(s: Seq<u16>, i: int) -> u16 {
    if 0 <= i < s.len() {
        s[i]
    } else {
        0
    }
}

/// The byte at `i`, or zero where there is none.
pub open spec fn byte_at(s: Seq<u8>, i: int) -> u8 {
    if 0 <= i < s.len() {
        s[i]
    } else {
        0
    }
}

/// The word at `i`, or zero where there is none.
pub fn get_word(v: &Vec<u16>, i: usize) -> (r: u16)
    ensures
        r == word_at(v@, i as int),
{
    if i < v.len() {
        v[i]
    } else {
        0
    }
}

/// The byte at `i`, or zero where there is none.
pub fn get_byte(v: &[u8], i: usize) -> (r: u8)
    ensures
        r == byte_at(v@, i as int),
{
    if i < v.len() {
        v[i]
    } else {
        0
    }
}

impl TriggerView {
    /// The settings of one key. A key that a table does not reach has zeros there.
    pub open spec fn of_key(self, key_index: u8) -> KeyTriggerSettings {
        let i = key_index as int;
        let mode = ModeByte::decoded(byte_at(self.key_modes, i));
        KeyTriggerSettings {
            key_index,
            actuation: word_at(self.press_travel, i),
            deactuation: word_at(self.lift_travel, i),
            mode: mode.base,
            rapid_trigger: mode.rapid_trigger,
        }
    }
}

impl TriggerSettings {
    /// The settings of one key.
    pub fn key(&self, key_index: u8) -> (r: KeyTriggerSettings)
        ensures
            r == self@.of_key(key_index),
    {
        let i: usize = key_index as usize;
        let mode: ModeByte = ModeByte::from_u8(get_byte(self.key_modes.as_slice(), i));
        KeyTriggerSettings {
            key_index,
            actuation: get_word(&self.press_travel, i),
            deactuation: get_word(&self.lift_travel, i),
            mode: mode.base,
            rapid_trigger: mode.rapid_trigger,
        }
    }
}

/// One output slot of a Dynamic Keystroke key: its key config, and the packed byte that
/// says what it does at the four points of the travel.
#[derive(Debug, Clone, Copy, PartialEq, Eq)]
pub struct DksBinding {
    pub config: [u8; 4],
    pub modes: u8,
}

/// The Dynamic Keystroke settings of a key.
#[derive(Debug, Clone, Copy, PartialEq, Eq)]
pub struct DksConfig {
    /// Travel at which the inner trigger points sit, in raw travel units.
    pub trigger_point_travel_raw: u16,
    pub bindings: [DksBinding; 4],
}

/// The packed bytes of the key `idx` in the blob of all keys, four per key; zeros where
/// the blob does not reach.
pub open spec fn blob_modes(blob: Seq<u8>, idx: int) -> Seq<u8> {
    Seq::new(
        4,
        |i: int|
            if idx * 4 + 4 <= blob.len() {
                blob[idx * 4 + i]
            } else {
                0
            },
    )
}

impl DksConfig {
    /// The packed bytes, one per slot.
    pub open spec fn modes(self) -> Seq<u8> {
        Seq::new(4, |i: int| self.bindings@[i].modes)
    }

    /// The key configs, one per slot.
    pub open spec fn configs(self) -> Seq<Seq<u8>> {
        Seq::new(4, |i: int| self.bindings@[i].config@)
    }

    /// The packed bytes of a key in the blob of all keys.
    pub fn trigger_modes_from_blob(blob: &[u8], idx: usize) -> (r: [u8; 4])
        ensures
            r@ == blob_modes(blob@, idx as int),
    {
        let n: usize = blob.len();
        if idx < n / 4 {
            let at: usize = idx * 4;
            let r: [u8; 4] = [blob[at], blob[at + 1], blob[at + 2], blob[at + 3]];
            assert(r@ =~= blob_modes(blob@, idx as int));
            r
        } else {
            let r: [u8; 4] = [0, 0, 0, 0];
            assert(r@ =~= blob_modes(blob@, idx as int));
            r
        }
    }

    /// Put settings together.
    pub fn from_parts(travel_raw: u16, modes: [u8; 4], configs: [[u8; 4]; 4]) -> (r: DksConfig)
        ensures
            r.trigger_point_travel_raw == travel_raw,
            r.modes() == modes@,
            forall|i: int| 0 <= i < 4 ==> (#[trigger] r.bindings@[i]).config == configs@[i],
    {
        let r: DksConfig = DksConfig {
            trigger_point_travel_raw: travel_raw,
            bindings: [
                DksBinding { config: configs[0], modes: modes[0] },
                DksBinding { config: configs[1], modes: modes[1] },
                DksBinding { config: configs[2], modes: modes[2] },
                DksBinding { config: configs[3], modes: modes[3] },
            ],
        };
        assert(r.modes() =~= modes@);
        r
    }

    /// The packed bytes, one per slot.
    pub fn trigger_modes(&self) -> (r: [u8; 4])
        ensures
            r@ == self.modes(),
    {
        let r: [u8; 4] = [
            self.bindings[0].modes,
            self.bindings[1].modes,
            self.bindings[2].modes,
            self.bindings[3].modes,
        ];
        assert(r@ =~= self.modes());
        r
    }
}

/// A [`DksConfig`] with sequences in place of arrays.
#[verifier::ext_equal]
pub struct DksView {
    pub travel: u16,
    pub modes: Seq<u8>,
    pub configs: Seq<Seq<u8>>,
}

impl View for DksConfig {
    type V = DksView;

    open spec fn view(&self) -> DksView {
        DksView {
            travel: self.trigger_point_travel_raw,
            modes: self.modes(),
            configs: self.configs(),
        }
    }
}

/// The config that goes into slot 0 of a Dynamic Keystroke key.
pub open spec fn slot0(requested: Seq<u8>, current: Seq<u8>) -> Seq<u8> {
    if requested == seq![0u8, 0u8, 0u8, 0u8] {
        current
    } else {
        requested
    }
}

/// Which config to write into DKS slot 0.
///
/// Slot 0 doubles as keymatrix layer 0, the key's *base* output once it leaves DKS
/// mode, and the base layer has no ROM fallback, so writing it empty silences the key.
/// When the caller leaves slot 0 empty, keep whatever the key emits today.
pub fn resolve_slot0(requested: [u8; 4], current: [u8; 4]) -> (r: [u8; 4])
    ensures
        r@ == slot0(requested@, current@),
{
    if requested[0] == 0 && requested[1] == 0 && requested[2] == 0 && requested[3] == 0 {
        assert(requested@ =~= seq![0u8, 0u8, 0u8, 0u8]);
        current
    } else {
        requested
    }
}

/// Slot 0 is never written empty while the key has an output to keep.
pub proof fn slot0_never_silences(requested: Seq<u8>, current: Seq<u8>)
    requires
        current != seq![0u8, 0u8, 0u8, 0u8],
    ensures
        slot0(requested, current) != seq![0u8, 0u8, 0u8, 0u8],
{
}

} // verus!
