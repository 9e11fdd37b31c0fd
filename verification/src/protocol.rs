//! Identifiers and requests of the vendor protocol.

use crate::error::{fails, invalid, KeyboardError};
use crate::led::LedParams;
use crate::settings::PrecisionThresholds;
use crate::text::{lowercased, str_eq, to_lowercase};
use vstd::prelude::*;

verus! {

/// Bytes of one page of a paged answer.
pub const INPUT_REPORT_SIZE: usize = 64;

/// How a request is protected.
#[derive(Debug, Clone, Copy, PartialEq, Eq, Structural)]
pub enum ChecksumType {
    /// Checksum in byte 7.
    Bit7,
    /// Checksum in byte 8.
    Bit8,
    /// No checksum.
    Unprotected,
}

/// What becomes of a request on the wire.
#[derive(Debug, Clone, Copy, PartialEq, Eq, Structural)]
pub enum Delivery {
    /// Sent, with the usual pause behind it.
    Send,
    /// Sent, with a pause of so many milliseconds behind it.
    SendThenWait(u64),
    /// Sent, with the usual pause behind it and so many milliseconds more.
    SendThenRest(u64),
    /// Sent; the answer must echo the command.
    Query,
    /// Sent; the answer is taken as it is.
    QueryRaw,
    /// Sent; the answer is a page of so many bytes.
    QueryPage(usize),
}

/// A command with its payload.
#[derive(Debug, Clone, PartialEq, Eq)]
pub struct Frame {
    pub cmd: u8,
    pub data: Vec<u8>,
    pub checksum: ChecksumType,
    pub delivery: Delivery,
}

/// A [`Frame`] with its payload as a sequence.
pub struct FrameView {
    pub cmd: u8,
    pub data: Seq<u8>,
    pub checksum: ChecksumType,
    pub delivery: Delivery,
}

impl View for Frame {
    type V = FrameView;

    open spec fn view(&self) -> FrameView {
        FrameView {
            cmd: self.cmd,
            data: self.data@,
            checksum: self.checksum,
            delivery: self.delivery,
        }
    }
}

/// A request to the keyboard.
///
/// Where the payload's layout is the packet encoder's own, the request carries the
/// values that go into it.
#[derive(Debug, Clone, PartialEq, Eq)]
#[allow(inconsistent_fields)]
pub enum Request {
    /// A command with its payload.
    Raw(Frame),
    /// Write one keymatrix entry. `commit` also saves; then the device needs the pause.
    KeyMatrix {
        profile: Profile,
        key_index: u8,
        layer: KeymatrixLayer,
        commit: bool,
        config: [u8; 4],
        wait_ms: Option<u64>,
    },
    /// Write one entry of the Fn table.
    FnKey { sys: u8, profile: Profile, key_index: u8, config: [u8; 4] },
    /// Write one page of a macro.
    MacroPage { slot: MacroSlot, page: u8, last: bool, chunk: Vec<u8>, wait_ms: u64 },
    /// Turn key depth reports on or off.
    MagnetismReport { enable: bool },
    /// Set the main LED parameters.
    Led(LedParams),
    /// Ask for the main LED parameters.
    LedQuery,
    /// Ask for the battery status.
    BatteryStatus,
    /// Ask the dongle for its patch information.
    DonglePatchInfo,
    /// Define an animation, with up to eight keyframes `(ticks, color, easing)`.
    AnimDefine {
        def_id: DefId,
        num_kf: u8,
        flags: u8,
        priority: i8,
        duration_ticks: u16,
        keyframes: Vec<(u16, u16, u8)>,
    },
    /// The keyframes behind the fourth.
    AnimDefineExt { def_id: DefId, keyframes: Vec<(u16, u16, u8)> },
    /// Assign keys, as `(grid position, phase offset)`.
    AnimAssign { def_id: DefId, keys: Vec<(u8, u8)> },
    /// Cancel one animation.
    AnimCancel { def_id: DefId },
    /// Clear all animations.
    AnimClear,
    /// Ask for the animation engine's status.
    AnimQuery,
    /// Ask for the keys of one animation.
    AnimQueryKeys { def_id: DefId },
}

/// A [`Request`] with sequences in place of vectors and arrays.
#[allow(inconsistent_fields)]
pub enum RequestView {
    Raw(FrameView),
    KeyMatrix {
        profile: Profile,
        key_index: u8,
        layer: KeymatrixLayer,
        commit: bool,
        config: Seq<u8>,
        wait_ms: Option<u64>,
    },
    FnKey { sys: u8, profile: Profile, key_index: u8, config: Seq<u8> },
    MacroPage { slot: MacroSlot, page: u8, last: bool, chunk: Seq<u8>, wait_ms: u64 },
    MagnetismReport { enable: bool },
    Led(LedParams),
    LedQuery,
    BatteryStatus,
    DonglePatchInfo,
    AnimDefine {
        def_id: DefId,
        num_kf: u8,
        flags: u8,
        priority: i8,
        duration_ticks: u16,
        keyframes: Seq<(u16, u16, u8)>,
    },
    AnimDefineExt { def_id: DefId, keyframes: Seq<(u16, u16, u8)> },
    AnimAssign { def_id: DefId, keys: Seq<(u8, u8)> },
    AnimCancel { def_id: DefId },
    AnimClear,
    AnimQuery,
    AnimQueryKeys { def_id: DefId },
}

impl View for Request {
    type V = RequestView;

    open spec fn view(&self) -> RequestView {
        match *self {
            Request::Raw(f) => RequestView::Raw(f@),
            Request::KeyMatrix {
                profile,
                key_index,
                layer,
                commit,
                config,
                wait_ms,
            } => RequestView::KeyMatrix {
                profile,
                key_index,
                layer,
                commit,
                config: config@,
                wait_ms,
            },
            Request::FnKey { sys, profile, key_index, config } => RequestView::FnKey {
                sys,
                profile,
                key_index,
                config: config@,
            },
            Request::MacroPage { slot, page, last, chunk, wait_ms } => RequestView::MacroPage {
                slot,
                page,
                last,
                chunk: chunk@,
                wait_ms,
            },
            Request::MagnetismReport { enable } => RequestView::MagnetismReport { enable },
            Request::Led(p) => RequestView::Led(p),
            Request::LedQuery => RequestView::LedQuery,
            Request::BatteryStatus => RequestView::BatteryStatus,
            Request::DonglePatchInfo => RequestView::DonglePatchInfo,
            Request::AnimDefine {
                def_id,
                num_kf,
                flags,
                priority,
                duration_ticks,
                keyframes,
            } => RequestView::AnimDefine {
                def_id,
                num_kf,
                flags,
                priority,
                duration_ticks,
                keyframes: keyframes@,
            },
            Request::AnimDefineExt { def_id, keyframes } => RequestView::AnimDefineExt {
                def_id,
                keyframes: keyframes@,
            },
            Request::AnimAssign { def_id, keys } => RequestView::AnimAssign { def_id, keys: keys@ },
            Request::AnimCancel { def_id } => RequestView::AnimCancel { def_id },
            Request::AnimClear => RequestView::AnimClear,
            Request::AnimQuery => RequestView::AnimQuery,
            Request::AnimQueryKeys { def_id } => RequestView::AnimQueryKeys { def_id },
        }
    }
}

/// The requests of a list, one by one.
pub open spec fn requests(v: Seq<Request>) -> Seq<RequestView> {
    v.map_values(|r: Request| r@)
}

/// A raw request as it is stated in contracts.
pub open spec fn raw(
    cmd: u8,
    data: Seq<u8>,
    checksum: ChecksumType,
    delivery: Delivery,
) -> RequestView {
    RequestView::Raw(FrameView { cmd, data, checksum, delivery })
}

impl Request {
    /// A command with its payload.
    pub fn frame(cmd: u8, data: Vec<u8>, checksum: ChecksumType, delivery: Delivery) -> (r: Request)
        ensures
            r@ == raw(cmd, data@, checksum, delivery),
    {
        Request::Raw(Frame { cmd, data, checksum, delivery })
    }
}

/// One of the four profiles that a keyboard stores.
#[derive(Debug, Clone, Copy, PartialEq, Eq, Structural)]
pub enum Profile {
    First,
    Second,
    Third,
    Fourth,
}

impl Default for Profile {
    fn default() -> (r: Self)
        ensures
            r == Profile::First,
    {
        Profile::First
    }
}

impl Profile {
    /// The index, from 0.
    pub open spec fn index(self) -> u8 {
        match self {
            Profile::First => 0,
            Profile::Second => 1,
            Profile::Third => 2,
            Profile::Fourth => 3,
        }
    }

    /// The index, from 0.
    pub fn get(&self) -> (r: u8)
        ensures
            r == self.index(),
            r < 4,
    {
        match self {
            Profile::First => 0,
            Profile::Second => 1,
            Profile::Third => 2,
            Profile::Fourth => 3,
        }
    }

    /// The number shown to a user, from 1.
    pub fn number(&self) -> (r: u8)
        ensures
            r == self.index() + 1,
    {
        self.get() + 1
    }

    /// The profile with an index.
    pub fn from_index(index: u8) -> (r: Result<Profile, KeyboardError>)
        ensures
            index < 4 ==> (r matches Ok(p) && p.index() == index),
            index >= 4 ==> fails(r, invalid("profile index must be 0-3"@)),
    {
        match index {
            0 => Ok(Profile::First),
            1 => Ok(Profile::Second),
            2 => Ok(Profile::Third),
            3 => Ok(Profile::Fourth),
            _ => Err(KeyboardError::invalid_parameter("profile index must be 0-3")),
        }
    }
}

/// Different profiles have different indices.
pub proof fn profile_index_is_unique(a: Profile, b: Profile)
    ensures
        a.index() == b.index() ==> a == b,
{
}

/// One of the four keymatrix layers. Layers 0 and 1 are a key's base and overlay
/// output; in DKS mode the firmware takes all four as output slots.
#[derive(Debug, Clone, Copy, PartialEq, Eq, Structural)]
pub enum KeymatrixLayer {
    Layer0,
    Layer1,
    Layer2,
    Layer3,
}

impl KeymatrixLayer {
    /// The index, from 0.
    pub open spec fn index(self) -> u8 {
        match self {
            KeymatrixLayer::Layer0 => 0,
            KeymatrixLayer::Layer1 => 1,
            KeymatrixLayer::Layer2 => 2,
            KeymatrixLayer::Layer3 => 3,
        }
    }

    /// The layer with an index.
    pub open spec fn at(i: int) -> KeymatrixLayer {
        if i == 0 {
            KeymatrixLayer::Layer0
        } else if i == 1 {
            KeymatrixLayer::Layer1
        } else if i == 2 {
            KeymatrixLayer::Layer2
        } else {
            KeymatrixLayer::Layer3
        }
    }

    /// The index, from 0.
    pub fn get(&self) -> (r: u8)
        ensures
            r == self.index(),
            r < 4,
    {
        match self {
            KeymatrixLayer::Layer0 => 0,
            KeymatrixLayer::Layer1 => 1,
            KeymatrixLayer::Layer2 => 2,
            KeymatrixLayer::Layer3 => 3,
        }
    }

    /// The layer that holds a DKS output slot.
    pub fn dks_slot(slot: u8) -> (r: Option<KeymatrixLayer>)
        ensures
            r == (if slot < 4 { Some(KeymatrixLayer::at(slot as int)) } else { None }),
    {
        match slot {
            0 => Some(KeymatrixLayer::Layer0),
            1 => Some(KeymatrixLayer::Layer1),
            2 => Some(KeymatrixLayer::Layer2),
            3 => Some(KeymatrixLayer::Layer3),
            _ => None,
        }
    }
}

/// A layer of key bindings as a user sees it.
#[derive(Debug, Clone, Copy, PartialEq, Eq, Structural)]
pub enum Layer {
    Base,
    Layer1,
    Fn,
}

/// The layer that a lower-case name stands for.
pub open spec fn layer_named(s: Seq<char>) -> Option<Layer> {
    if s == "0"@ || s == "l0"@ || s == "base"@ {
        Some(Layer::Base)
    } else if s == "1"@ || s == "l1"@ {
        Some(Layer::Layer1)
    } else if s == "2"@ || s == "fn"@ {
        Some(Layer::Fn)
    } else {
        None
    }
}

impl Layer {
    /// The keymatrix layer behind it; the Fn layer is a store of its own.
    pub open spec fn keymatrix(self) -> Option<KeymatrixLayer> {
        match self {
            Layer::Base => Some(KeymatrixLayer::Layer0),
            Layer::Layer1 => Some(KeymatrixLayer::Layer1),
            Layer::Fn => None,
        }
    }

    /// The short name.
    pub open spec fn short_name(self) -> Seq<char> {
        match self {
            Layer::Base => "L0"@,
            Layer::Layer1 => "L1"@,
            Layer::Fn => "Fn"@,
        }
    }

    /// The keymatrix layer behind it; the Fn layer is a store of its own.
    pub fn keymatrix_layer(&self) -> (r: Option<KeymatrixLayer>)
        ensures
            r == self.keymatrix(),
    {
        match self {
            Layer::Base => Some(KeymatrixLayer::Layer0),
            Layer::Layer1 => Some(KeymatrixLayer::Layer1),
            Layer::Fn => None,
        }
    }

    /// The short name.
    pub fn as_str(&self) -> (r: &'static str)
        ensures
            r@ == self.short_name(),
    {
        match self {
            Layer::Base => "L0",
            Layer::Layer1 => "L1",
            Layer::Fn => "Fn",
        }
    }

    /// Read a layer, by number or by name in either case.
    pub fn parse(s: &str) -> (r: Option<Layer>)
        ensures
            r == layer_named(lowercased(s@)),
            crate::text::all_ascii(s@) ==> r == layer_named(
                s@.map_values(|c: char| crate::text::ascii_lower(c)),
            ),
    {
        let low: String = to_lowercase(s);
        Layer::from_lower_case(low.as_str())
    }

    /// Read a layer from its number or its name in lower case.
    pub fn from_lower_case(t: &str) -> (r: Option<Layer>)
        ensures
            r == layer_named(t@),
    {
        if str_eq(t, "0") || str_eq(t, "l0") || str_eq(t, "base") {
            Some(Layer::Base)
        } else if str_eq(t, "1") || str_eq(t, "l1") {
            Some(Layer::Layer1)
        } else if str_eq(t, "2") || str_eq(t, "fn") {
            Some(Layer::Fn)
        } else {
            None
        }
    }
}

/// A HID keyboard usage; zero means none.
#[derive(Debug, Clone, Copy, PartialEq, Eq, Structural)]
pub struct HidUsage {
    pub code: u8,
}

impl HidUsage {
    /// The usage with a code.
    pub fn new(code: u8) -> (r: HidUsage)
        ensures
            r.code == code,
    {
        HidUsage { code }
    }

    /// No usage.
    pub fn none() -> (r: HidUsage)
        ensures
            r.code == 0,
    {
        HidUsage { code: 0 }
    }

    /// The code.
    pub fn get(&self) -> (r: u8)
        ensures
            r == self.code,
    {
        self.code
    }
}

/// A position in the key matrix.
#[derive(Debug, Clone, Copy, PartialEq, Eq, Structural)]
pub struct MatrixPos {
    pub pos: u8,
}

impl MatrixPos {
    /// The position with an index.
    pub fn new(pos: u8) -> (r: MatrixPos)
        ensures
            r.pos == pos,
    {
        MatrixPos { pos }
    }

    /// The index.
    pub fn get(&self) -> (r: u8)
        ensures
            r == self.pos,
    {
        self.pos
    }
}

/// A macro slot.
#[derive(Debug, Clone, Copy, PartialEq, Eq, Structural)]
pub struct MacroSlot {
    pub slot: u8,
}

/// A position in the LED grid: row times 16 plus column.
#[derive(Debug, Clone, Copy, PartialEq, Eq, Structural)]
pub struct LedPos {
    pub pos: u8,
}

/// A position along the LED strip. The firmware converts from the grid, so a grid
/// position cannot stand for it.
#[derive(Debug, Clone, Copy, PartialEq, Eq, Structural)]
pub struct StripIdx {
    pub idx: u8,
}

/// An animation definition slot, 0 to 7.
#[derive(Debug, Clone, Copy, PartialEq, Eq, Structural)]
pub struct DefId {
    id: u8,
}

impl DefId {
    /// The slot number.
    pub closed spec fn number(self) -> u8 {
        self.id
    }

    /// There are eight slots.
    #[verifier::type_invariant]
    spec fn in_range(self) -> bool {
        self.id < 8
    }

    /// The slot with a number, if there is one.
    pub fn from_u8(id: u8) -> (r: Option<DefId>)
        ensures
            id < 8 ==> (r matches Some(d) && d.number() == id),
            id >= 8 ==> r is None,
    {
        if id < 8 {
            Some(DefId { id })
        } else {
            None
        }
    }

    /// The slot number.
    pub fn get(&self) -> (r: u8)
        ensures
            r == self.number(),
            r < 8,
    {
        proof {
            use_type_invariant(self);
        }
        self.id
    }
}

/// Sub-commands of the trigger tables.
#[derive(Debug, Clone, Copy, PartialEq, Eq, Structural)]
pub struct MagnetismTable {
    pub press_travel: u8,
    pub lift_travel: u8,
    pub rt_press: u8,
    pub rt_lift: u8,
    pub dks_travel: u8,
    pub modtap_time: u8,
    pub bottom_deadzone: u8,
    pub key_mode: u8,
    pub dks_trigger_modes_set: u8,
    pub snaptap_enable: u8,
    pub dks_modes: u8,
    pub top_deadzone: u8,
    pub calibration: u8,
    /// Mode code of a key in Dynamic Keystroke mode.
    pub dks_mode: u8,
}

/// Command bytes of a protocol family. What a family does not have is `None`.
#[derive(Debug, Clone, Copy, PartialEq, Eq, Structural)]
pub struct CommandTable {
    pub get_profile: u8,
    pub set_profile: u8,
    pub get_debounce: u8,
    pub set_debounce: u8,
    pub get_report: Option<u8>,
    pub set_report: Option<u8>,
    pub get_sleeptime: Option<u8>,
    pub set_sleeptime: Option<u8>,
    pub get_kboption: Option<u8>,
    pub set_kboption: Option<u8>,
    pub set_reset: u8,
    pub get_keymatrix: u8,
    pub set_keymatrix: u8,
    pub set_macro: u8,
    pub get_usb_version: u8,
    pub get_feature_list: u8,
    pub get_ledparam: u8,
    pub set_ledparam: u8,
    pub get_sledparam: u8,
    pub set_sledparam: u8,
    pub get_userpic: u8,
    pub set_userpic: u8,
    pub get_fn: u8,
    pub get_macro: u8,
    pub get_multi_magnetism: u8,
    pub set_multi_magnetism: u8,
    pub set_magnetism_cal: u8,
    pub set_magnetism_max_cal: u8,
    pub led_stream: u8,
    pub get_patch_info: u8,
    /// Option value that turns rainbow color cycling off.
    pub dazzle_off: u8,
    /// Sub-commands of the trigger tables.
    pub magnetism: MagnetismTable,
    /// Firmware versions at which the travel unit changes.
    pub precision: PrecisionThresholds,
}

impl View for Profile {
    type V = Profile;

    open spec fn view(&self) -> Profile {
        *self
    }
}

/// A rate at which the keyboard is polled, with the code that stands for it.
#[derive(Debug, Clone, Copy, PartialEq, Eq, Structural)]
pub struct PollingRate {
    pub code: u8,
    pub hz: u16,
}

impl View for PollingRate {
    type V = PollingRate;

    open spec fn view(&self) -> PollingRate {
        *self
    }
}

} // verus!
