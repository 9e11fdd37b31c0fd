//! LED modes, parameters and colors.

use vstd::prelude::*;

verus! {

/// Highest LED speed.
pub const SPEED_MAX: u8 = 4;

/// Highest LED brightness.
pub const BRIGHTNESS_MAX: u8 = 4;

/// Highest LED mode number.
pub const LED_MODE_MAX: u8 = 22;

/// Option value that turns rainbow color cycling on.
pub const DAZZLE_ON: u8 = 7;

/// LED mode that shows a picture stored on the keyboard.
pub const USER_PICTURE_MODE: u8 = 13;

/// An LED mode that the firmware knows.
#[derive(Debug, Clone, Copy, PartialEq, Eq, Structural)]
pub struct LedMode {
    code: u8,
}

impl LedMode {
    /// The mode number.
    pub closed spec fn number(self) -> u8 {
        self.code
    }

    /// No mode has a number over [`LED_MODE_MAX`].
    #[verifier::type_invariant]
    spec fn known(self) -> bool {
        self.code <= LED_MODE_MAX
    }

    /// The mode with a number, if there is one.
    pub fn from_u8(code: u8) -> (r: Option<LedMode>)
        ensures
            code <= LED_MODE_MAX ==> (r matches Some(m) && m.number() == code),
            code > LED_MODE_MAX ==> r is None,
    {
        if code <= LED_MODE_MAX {
            Some(LedMode { code })
        } else {
            None
        }
    }

    /// All LEDs dark.
    pub fn off() -> (r: LedMode)
        ensures
            r.number() == 0,
    {
        LedMode { code: 0 }
    }

    /// The mode number.
    pub fn as_u8(&self) -> (r: u8)
        ensures
            r == self.number(),
            r <= LED_MODE_MAX,
    {
        proof {
            use_type_invariant(self);
        }
        self.code
    }
}

/// A color.
#[derive(Debug, Clone, Copy, PartialEq, Eq, Structural)]
pub struct RgbColor {
    pub r: u8,
    pub g: u8,
    pub b: u8,
}

impl RgbColor {
    /// From its components.
    pub fn new(r: u8, g: u8, b: u8) -> (c: RgbColor)
        ensures
            c == (RgbColor { r, g, b }),
    {
        RgbColor { r, g, b }
    }
}

/// Parameters of a group of LEDs.
#[derive(Debug, Clone, Copy, PartialEq, Eq, Structural)]
pub struct LedParams {
    pub mode: LedMode,
    pub brightness: u8,
    pub speed: u8,
    pub color: RgbColor,
    pub direction: u8,
}

/// The smaller of two bytes.
pub open spec fn at_most(v: u8, max: u8) -> u8 {
    if v > max {
        max
    } else {
        v
    }
}

/// `v`, but no more than `max`.
pub fn cap(v: u8, max: u8) -> (r: u8)
    ensures
        r == at_most(v, max),
{
    if v > max {
        max
    } else {
        v
    }
}

/// A speed on the wire, where fast is small.
pub open spec fn wire_speed(speed: u8) -> u8 {
    (SPEED_MAX - at_most(speed, SPEED_MAX)) as u8
}

/// A speed on the wire, where fast is small.
pub fn speed_to_wire(speed: u8) -> (r: u8)
    ensures
        r == wire_speed(speed),
{
    SPEED_MAX - cap(speed, SPEED_MAX)
}

/// Inverting a speed twice gives it back, within range.
pub proof fn speed_round_trip(speed: u8)
    requires
        speed <= SPEED_MAX,
    ensures
        wire_speed(wire_speed(speed)) == speed,
{
}

impl View for LedParams {
    type V = LedParams;

    open spec fn view(&self) -> LedParams {
        *self
    }
}

} // verus!
