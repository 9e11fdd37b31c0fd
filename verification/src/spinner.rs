//! Spinners: stepping an integer setting within its bounds.

use crate::settings::{mm_text, Precision, TravelDepth, RT_STABILITY_MAX};
use crate::text::{dec, dec_string};
use vstd::prelude::*;

verus! {

/// How a spinner renders its value.
#[derive(Debug, Clone, Copy, PartialEq, Eq)]
pub enum SpinnerDisplay {
    /// The number itself, with a unit suffix ("ms", "s", or "" for bare counts).
    Integer(&'static str),
    /// Raw travel units, rendered as millimetres through the device precision.
    Travel(Precision),
}

/// A spinner over an **integer** value, in whatever unit the value is stored in.
///
/// Stepping in the stored unit makes increments exact and the round trip lossless.
#[derive(Debug, Clone, Copy, PartialEq, Eq)]
pub struct SpinnerConfig {
    pub min: u16,
    pub max: u16,
    pub step: u16,
    pub step_coarse: u16,
    pub display: SpinnerDisplay,
}

/// `v` moved into the range from `min` to `max`.
pub open spec fn clamped(v: int, min: u16, max: u16) -> u16 {
    if v < min {
        min
    } else if v > max {
        max
    } else {
        v as u16
    }
}

impl SpinnerConfig {
    /// The bounds are bounds.
    pub open spec fn ordered(self) -> bool {
        self.min <= self.max
    }

    /// The step, fine or coarse.
    pub open spec fn stride(self, coarse: bool) -> u16 {
        if coarse {
            self.step_coarse
        } else {
            self.step
        }
    }

    /// A value one step up, within the bounds.
    pub open spec fn up(self, value: u16, coarse: bool) -> u16 {
        clamped(value + self.stride(coarse), self.min, self.max)
    }

    /// A value one step down, within the bounds.
    pub open spec fn down(self, value: u16, coarse: bool) -> u16 {
        clamped(value - self.stride(coarse), self.min, self.max)
    }

    /// A byte value one step up.
    pub open spec fn up_u8(self, value: u8, coarse: bool) -> u8 {
        low_part(self.up(value as u16, coarse))
    }

    /// A byte value one step down.
    pub open spec fn down_u8(self, value: u8, coarse: bool) -> u8 {
        low_part(self.down(value as u16, coarse))
    }

    /// A spinner over a bare integer (counts, milliseconds, seconds).
    pub fn integer(min: u16, max: u16, step: u16, step_coarse: u16, unit: &'static str) -> (r: Self)
        ensures
            r == (SpinnerConfig {
                min,
                max,
                step,
                step_coarse,
                display: SpinnerDisplay::Integer(unit),
            }),
    {
        SpinnerConfig { min, max, step, step_coarse, display: SpinnerDisplay::Integer(unit) }
    }

    /// A travel spinner whose bounds and steps are given in raw units. A step moves at
    /// least one raw unit, or the spinner would stick.
    pub fn travel(min: u16, max: u16, step: u16, step_coarse: u16, precision: Precision) -> (r: Self)
        ensures
            r == (SpinnerConfig {
                min,
                max,
                step: at_least_one(step),
                step_coarse: at_least_one(step_coarse),
                display: SpinnerDisplay::Travel(precision),
            }),
    {
        SpinnerConfig {
            min,
            max,
            step: if step == 0 {
                1
            } else {
                step
            },
            step_coarse: if step_coarse == 0 {
                1
            } else {
                step_coarse
            },
            display: SpinnerDisplay::Travel(precision),
        }
    }

    /// Increment by the step, or by the coarse step.
    pub fn increment(&self, value: u16, coarse: bool) -> (r: u16)
        requires
            self.ordered(),
        ensures
            r == self.up(value, coarse),
    {
        let step: u16 = if coarse {
            self.step_coarse
        } else {
            self.step
        };
        let v: u32 = value as u32 + step as u32;
        if v < self.min as u32 {
            self.min
        } else if v > self.max as u32 {
            self.max
        } else {
            v as u16
        }
    }

    /// Decrement by the step, or by the coarse step.
    pub fn decrement(&self, value: u16, coarse: bool) -> (r: u16)
        requires
            self.ordered(),
        ensures
            r == self.down(value, coarse),
    {
        let step: u16 = if coarse {
            self.step_coarse
        } else {
            self.step
        };
        if value < step {
            return self.min;
        }
        let v: u16 = value - step;
        if v < self.min {
            self.min
        } else if v > self.max {
            self.max
        } else {
            v
        }
    }

    /// Increment a byte setting (RGB components, brightness, profile).
    pub fn increment_u8(&self, value: u8, coarse: bool) -> (r: u8)
        requires
            self.ordered(),
        ensures
            r == self.up_u8(value, coarse),
    {
        cut_to_byte(self.increment(value as u16, coarse))
    }

    /// Decrement a byte setting.
    pub fn decrement_u8(&self, value: u8, coarse: bool) -> (r: u8)
        requires
            self.ordered(),
        ensures
            r == self.down_u8(value, coarse),
    {
        cut_to_byte(self.decrement(value as u16, coarse))
    }

    /// The value as this spinner displays it, without the unit.
    pub fn format(&self, value: u16) -> (r: String)
        ensures
            r@ == (match self.display {
                SpinnerDisplay::Integer(_) => dec(value as nat),
                SpinnerDisplay::Travel(p) => travel_text(value, p),
            }),
    {
        match self.display {
            SpinnerDisplay::Integer(_) => dec_string(value as u64),
            SpinnerDisplay::Travel(p) => TravelDepth::from_raw(value).format_mm(p),
        }
    }

    /// The unit suffix.
    pub fn unit(&self) -> (r: &'static str)
        ensures
            r@ == (match self.display {
                SpinnerDisplay::Integer(u) => u@,
                SpinnerDisplay::Travel(_) => "mm"@,
            }),
    {
        match self.display {
            SpinnerDisplay::Integer(u) => u,
            SpinnerDisplay::Travel(_) => "mm",
        }
    }
}

/// A value cut off at a byte.
pub open spec fn low_part(v: u16) -> u8 {
    if v > 255 {
        255
    } else {
        v as u8
    }
}

/// A value cut off at a byte.
fn cut_to_byte(v: u16) -> (r: u8)
    ensures
        r == low_part(v),
{
    if v > 255 {
        255
    } else {
        v as u8
    }
}

/// A step, but at least one unit.
pub open spec fn at_least_one(step: u16) -> u16 {
    if step == 0 {
        1
    } else {
        step
    }
}

/// A travel value as millimetres.
pub open spec fn travel_text(value: u16, precision: Precision) -> Seq<char> {
    mm_text(
        value as nat * precision.unit_um(),
        match precision {
            Precision::Coarse => 1,
            Precision::Medium => 2,
            Precision::Fine => 3,
        },
    )
}

/// A value some steps up.
pub open spec fn steps_up(cfg: SpinnerConfig, value: u16, coarse: bool, n: nat) -> u16
    decreases n,
{
    if n == 0 {
        value
    } else {
        cfg.up(steps_up(cfg, value, coarse, (n - 1) as nat), coarse)
    }
}

/// A value some steps down.
pub open spec fn steps_down(cfg: SpinnerConfig, value: u16, coarse: bool, n: nat) -> u16
    decreases n,
{
    if n == 0 {
        value
    } else {
        steps_down(cfg, cfg.down(value, coarse), coarse, (n - 1) as nat)
    }
}

/// Stepping stays within the bounds, whatever the value was.
pub proof fn stepping_stays_in_bounds(cfg: SpinnerConfig, value: u16, coarse: bool)
    requires
        cfg.ordered(),
    ensures
        cfg.min <= cfg.up(value, coarse) <= cfg.max,
        cfg.min <= cfg.down(value, coarse) <= cfg.max,
{
}

/// A step of at least one moves a value that is not at the bound.
pub proof fn a_step_moves_the_value(cfg: SpinnerConfig, value: u16, coarse: bool)
    requires
        cfg.min <= value <= cfg.max,
        cfg.stride(coarse) > 0,
    ensures
        value < cfg.max ==> cfg.up(value, coarse) > value,
        value > cfg.min ==> cfg.down(value, coarse) < value,
{
}

/// Stepping up and back down as often gives the value back, as long as the bound is not
/// hit on the way.
pub proof fn stepping_is_lossless(cfg: SpinnerConfig, value: u16, coarse: bool, n: nat)
    requires
        cfg.min <= value,
        value + n * cfg.stride(coarse) <= cfg.max,
    ensures
        steps_up(cfg, value, coarse, n) == value + n * cfg.stride(coarse),
        steps_down(cfg, steps_up(cfg, value, coarse, n), coarse, n) == value,
    decreases n,
{
    if n > 0 {
        let m = (n - 1) as nat;
        let step = cfg.stride(coarse) as int;
        assert(n * step == m * step + step) by (nonlinear_arith)
            requires
                m == n - 1,
        ;
        assert(m * step >= 0) by (nonlinear_arith)
            requires
                step >= 0,
        ;
        stepping_is_lossless(cfg, value, coarse, m);
        assert(cfg.down(steps_up(cfg, value, coarse, n), coarse) == steps_up(
            cfg,
            value,
            coarse,
            m,
        ));
    } else {
        assert(n * cfg.stride(coarse) == 0) by (nonlinear_arith)
            requires
                n == 0,
        ;
    }
}

/// Spinner for RGB color components.
pub fn rgb_spinner() -> (r: SpinnerConfig)
    ensures
        r == rgb(),
{
    SpinnerConfig::integer(0, 255, 1, 10, "")
}

/// Spinner for LED brightness and speed.
pub fn level_spinner() -> (r: SpinnerConfig)
    ensures
        r == level(),
{
    SpinnerConfig::integer(0, 4, 1, 1, "")
}

/// Spinner for the debounce time.
pub fn debounce_spinner() -> (r: SpinnerConfig)
    ensures
        r == debounce(),
{
    SpinnerConfig::integer(0, 25, 1, 5, "")
}

/// Spinner for the Fn layer; the firmware keeps a single bit.
pub fn fn_layer_spinner() -> (r: SpinnerConfig)
    ensures
        r == fn_layer(),
{
    SpinnerConfig::integer(0, 1, 1, 1, "")
}

/// Spinner for the Rapid Trigger stability level.
pub fn rt_stability_spinner() -> (r: SpinnerConfig)
    ensures
        r == rt_stability(),
{
    SpinnerConfig::integer(0, RT_STABILITY_MAX as u16, 1, 1, "")
}

/// Spinner for the OS mode.
pub fn os_mode_spinner() -> (r: SpinnerConfig)
    ensures
        r == (SpinnerConfig {
            min: 0,
            max: 3,
            step: 1,
            step_coarse: 1,
            display: SpinnerDisplay::Integer(""),
        }),
{
    SpinnerConfig::integer(0, 3, 1, 1, "")
}

/// Spinner for sleep times in seconds.
pub fn sleep_time_spinner() -> (r: SpinnerConfig)
    ensures
        r == sleep_time(),
{
    SpinnerConfig::integer(0, 3600, 60, 300, "s")
}

/// The spinner of [`rgb_spinner`].
pub open spec fn rgb() -> SpinnerConfig {
    SpinnerConfig {
        min: 0,
        max: 255,
        step: 1,
        step_coarse: 10,
        display: SpinnerDisplay::Integer(""),
    }
}

/// The spinner of [`level_spinner`].
pub open spec fn level() -> SpinnerConfig {
    SpinnerConfig {
        min: 0,
        max: 4,
        step: 1,
        step_coarse: 1,
        display: SpinnerDisplay::Integer(""),
    }
}

/// The spinner of [`debounce_spinner`].
pub open spec fn debounce() -> SpinnerConfig {
    SpinnerConfig {
        min: 0,
        max: 25,
        step: 1,
        step_coarse: 5,
        display: SpinnerDisplay::Integer(""),
    }
}

/// The spinner of [`fn_layer_spinner`].
pub open spec fn fn_layer() -> SpinnerConfig {
    SpinnerConfig {
        min: 0,
        max: 1,
        step: 1,
        step_coarse: 1,
        display: SpinnerDisplay::Integer(""),
    }
}

/// The spinner of [`rt_stability_spinner`].
pub open spec fn rt_stability() -> SpinnerConfig {
    SpinnerConfig {
        min: 0,
        max: RT_STABILITY_MAX as u16,
        step: 1,
        step_coarse: 1,
        display: SpinnerDisplay::Integer(""),
    }
}

/// The spinner of [`sleep_time_spinner`].
pub open spec fn sleep_time() -> SpinnerConfig {
    SpinnerConfig {
        min: 0,
        max: 3600,
        step: 60,
        step_coarse: 300,
        display: SpinnerDisplay::Integer("s"),
    }
}

} // verus!
