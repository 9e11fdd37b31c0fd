//! Keyboard settings: travel precision, firmware version, options, sleep times.

use crate::bits::{copy_bytes, le16, lemma_byte_masks, lemma_word_masks, word};
use crate::text::{
    ascii_lower, all_ascii, chars_of, dec, dec2, digit_char, digit_value, is_digit, is_white_space,
    lowercased, push_dec, push_dec2, str_eq, to_lowercase, trim, trimmed,
};
use vstd::prelude::*;

verus! {

/// Firmware versions from which a finer travel unit is in use.
#[derive(Debug, Clone, Copy, PartialEq, Eq, Structural)]
pub struct PrecisionThresholds {
    /// First version with 0.01mm units.
    pub medium: u16,
    /// First version with 0.005mm units.
    pub fine: u16,
}

/// Precision level for trigger and travel settings.
///
/// Determines the resolution of travel distance measurements.
#[derive(Debug, Clone, Copy, PartialEq, Eq, Structural)]
pub enum Precision {
    /// 0.1mm resolution (legacy).
    Coarse,
    /// 0.01mm resolution (standard).
    Medium,
    /// 0.005mm resolution (high).
    Fine,
}

impl Default for Precision {
    fn default() -> (r: Self)
        ensures
            r == Precision::Coarse,
    {
        Precision::Coarse
    }
}

impl Precision {
    /// Micrometres in one raw travel unit.
    pub open spec fn unit_um(self) -> nat {
        match self {
            Precision::Coarse => 100,
            Precision::Medium => 10,
            Precision::Fine => 5,
        }
    }

    /// The level that a firmware version implies.
    pub open spec fn of_version(version: u16, t: PrecisionThresholds) -> Precision {
        if version >= t.fine {
            Precision::Fine
        } else if version >= t.medium {
            Precision::Medium
        } else {
            Precision::Coarse
        }
    }

    /// The level that a feature-list byte names.
    pub open spec fn of_feature_byte(byte: u8) -> Precision {
        if byte == 2 || byte == 1 {
            Precision::Medium
        } else {
            Precision::Coarse
        }
    }

    /// The unit size as text.
    pub open spec fn name(self) -> Seq<char> {
        match self {
            Precision::Fine => "0.005mm"@,
            Precision::Medium => "0.01mm"@,
            Precision::Coarse => "0.1mm"@,
        }
    }

    /// Create from the precision byte of the feature list.
    ///
    /// The feature list writes 0.1mm as 0, 0.05mm as 1 and 0.01mm as 2. There is no
    /// separate level for 0.05mm, so 1 maps to [`Precision::Medium`] like 2.
    pub fn from_feature_byte(byte: u8) -> (r: Self)
        ensures
            r == Precision::of_feature_byte(byte),
    {
        match byte {
            2 | 1 => Precision::Medium,
            _ => Precision::Coarse,
        }
    }

    /// Create from the firmware version.
    ///
    /// Older firmware has no feature list, so the level is inferred from the version.
    pub fn from_firmware_version(version: u16, thresholds: &PrecisionThresholds) -> (r: Self)
        ensures
            r == Precision::of_version(version, *thresholds),
    {
        if version >= thresholds.fine {
            Precision::Fine
        } else if version >= thresholds.medium {
            Precision::Medium
        } else {
            Precision::Coarse
        }
    }

    /// The unit size as text.
    pub fn as_str(&self) -> (r: &'static str)
        ensures
            r@ == self.name(),
    {
        match self {
            Precision::Fine => "0.005mm",
            Precision::Medium => "0.01mm",
            Precision::Coarse => "0.1mm",
        }
    }

    /// Raw units in one millimetre.
    pub fn units_per_mm(&self) -> (r: u16)
        ensures
            r * self.unit_um() == 1000,
    {
        match self {
            Precision::Fine => 200,
            Precision::Medium => 100,
            Precision::Coarse => 10,
        }
    }

    /// Decimal places needed to render one raw unit exactly.
    ///
    /// A device with 0.005mm units cannot be shown faithfully in two decimals, so the
    /// display follows the device rather than a fixed width.
    pub fn decimals(&self) -> (r: u32)
        ensures
            r == (match *self {
                Precision::Coarse => 1u32,
                Precision::Medium => 2u32,
                Precision::Fine => 3u32,
            }),
    {
        match self {
            Precision::Coarse => 1,
            Precision::Medium => 2,
            Precision::Fine => 3,
        }
    }

    /// Raw travel in micrometres.
    pub fn raw_to_um(&self, raw: u16) -> (r: u32)
        ensures
            r == raw * self.unit_um(),
    {
        let unit: u32 = match self {
            Precision::Coarse => 100,
            Precision::Medium => 10,
            Precision::Fine => 5,
        };
        assert(raw as int * unit as int <= 65535 * 100) by (nonlinear_arith)
            requires
                raw <= 65535,
                unit <= 100,
        ;
        raw as u32 * unit
    }
}

/// A travel distance in raw device units.
#[derive(Debug, Clone, Copy, PartialEq, Eq, Structural)]
pub struct TravelDepth {
    raw: u16,
}

/// A distance of `um` micrometres as millimetres with `decimals` places.
pub open spec fn mm_text(um: nat, decimals: int) -> Seq<char> {
    let whole = dec(um / 1000) + "."@;
    let tenths = digit_char((um % 1000 / 100) as int);
    let hundredths = digit_char((um % 100 / 10) as int);
    let thousandths = digit_char((um % 10) as int);
    if decimals == 1 {
        whole + seq![tenths]
    } else if decimals == 2 {
        whole + seq![tenths, hundredths]
    } else {
        whole + seq![tenths, hundredths, thousandths]
    }
}

impl TravelDepth {
    /// The raw device value.
    pub closed spec fn units(self) -> u16 {
        self.raw
    }

    /// From the raw device value.
    pub fn from_raw(raw: u16) -> (r: Self)
        ensures
            r.units() == raw,
    {
        TravelDepth { raw }
    }

    /// The raw device value.
    pub fn raw(&self) -> (r: u16)
        ensures
            r == self.units(),
    {
        self.raw
    }

    /// Millimetres at the exact number of places the precision needs.
    pub fn format_mm(&self, precision: Precision) -> (r: String)
        ensures
            r@ == mm_text(
                self.units() as nat * precision.unit_um(),
                match precision {
                    Precision::Coarse => 1,
                    Precision::Medium => 2,
                    Precision::Fine => 3,
                },
            ),
    {
        let um: u32 = precision.raw_to_um(self.raw);
        let mut out = String::new();
        push_dec(&mut out, (um / 1000) as u64);
        out.append(".");
        push_dec(&mut out, (um % 1000 / 100) as u64);
        match precision {
            Precision::Coarse => {},
            Precision::Medium => {
                push_dec(&mut out, (um % 100 / 10) as u64);
            },
            Precision::Fine => {
                push_dec(&mut out, (um % 100 / 10) as u64);
                push_dec(&mut out, (um % 10) as u64);
            },
        }
        assert(out@ =~= mm_text(
            self.units() as nat * precision.unit_um(),
            match precision {
                Precision::Coarse => 1,
                Precision::Medium => 2,
                Precision::Fine => 3,
            },
        ));
        out
    }
}

/// No place is lost in rendering: below the places shown, the distance has nothing.
pub proof fn rendering_is_exact(raw: u16, precision: Precision)
    ensures
        precision == Precision::Coarse ==> (raw * precision.unit_um()) % 100 == 0,
        precision == Precision::Medium ==> (raw * precision.unit_um()) % 10 == 0,
{
    assert((raw as int * 100) % 100 == 0 && (raw as int * 10) % 10 == 0) by (nonlinear_arith);
}

/// Firmware version information.
#[derive(Debug, Clone, Copy, PartialEq, Eq, Structural)]
pub struct FirmwareVersion {
    /// Packed version word: major in the high byte, minor in the low byte.
    /// e.g. 0x0408 = v408. The device sends minor first, then major.
    pub raw: u16,
}

impl Default for FirmwareVersion {
    fn default() -> (r: Self)
        ensures
            r.raw == 0,
    {
        FirmwareVersion { raw: 0 }
    }
}

impl FirmwareVersion {
    /// Create from the raw version word.
    pub fn new(raw: u16) -> (r: Self)
        ensures
            r.raw == raw,
    {
        FirmwareVersion { raw }
    }

    /// Parse the version out of response bytes after the command echo, where bytes 7
    /// and 8 hold it, low byte first. A shorter response gives version zero.
    pub fn from_bytes(bytes: &[u8]) -> (r: Self)
        ensures
            r.raw == (if bytes@.len() < 9 { 0 } else { le16(bytes@[7], bytes@[8]) }),
    {
        if bytes.len() < 9 {
            return FirmwareVersion::default();
        }
        FirmwareVersion { raw: word(bytes[7], bytes[8]) }
    }

    /// Precision level that this version implies.
    pub fn precision(&self, thresholds: &PrecisionThresholds) -> (r: Precision)
        ensures
            r == Precision::of_version(self.raw, *thresholds),
    {
        Precision::from_firmware_version(self.raw, thresholds)
    }

    /// Precision as text (e.g. "0.01mm").
    pub fn precision_str(&self, thresholds: &PrecisionThresholds) -> (r: &'static str)
        ensures
            r@ == Precision::of_version(self.raw, *thresholds).name(),
    {
        self.precision(thresholds).as_str()
    }

    /// Format the way the vendor names firmware: `"v408"` for raw `0x0408`.
    ///
    /// The word is packed major and minor, and the two are written together without a
    /// separator, the minor with at least two digits.
    pub fn format(&self) -> (r: String)
        ensures
            r@ == "v"@ + dec((self.raw / 256) as nat) + dec2((self.raw % 256) as nat),
    {
        proof {
            lemma_word_masks(self.raw);
        }
        let mut out: String = "v".to_owned();
        push_dec(&mut out, (self.raw >> 8) as u64);
        push_dec2(&mut out, (self.raw & 0xFF) as u64);
        out
    }

    /// Format as major.minor.patch (e.g. "4.0.5" for raw 0x405).
    pub fn format_dotted(&self) -> (r: String)
        ensures
            r@ == dec((self.raw / 256 % 16) as nat) + "."@ + dec((self.raw / 16 % 16) as nat)
                + "."@ + dec((self.raw % 16) as nat),
    {
        let high: u16 = self.raw >> 8;
        let mid: u16 = self.raw >> 4;
        proof {
            lemma_word_masks(self.raw);
            lemma_word_masks(high);
            lemma_word_masks(mid);
        }
        let mut out = String::new();
        push_dec(&mut out, (high & 0xF) as u64);
        out.append(".");
        push_dec(&mut out, (mid & 0xF) as u64);
        out.append(".");
        push_dec(&mut out, (self.raw & 0xF) as u64);
        out
    }

    /// The precision byte of the feature list as text.
    pub fn precision_byte_str(precision: u8) -> (r: &'static str)
        ensures
            r@ == (if precision == 0 {
                "0.1mm"@
            } else if precision == 1 {
                "0.05mm"@
            } else if precision == 2 {
                "0.01mm"@
            } else {
                "unknown"@
            }),
    {
        match precision {
            0 => "0.1mm",
            1 => "0.05mm",
            2 => "0.01mm",
            _ => "unknown",
        }
    }
}

/// Battery information (wireless only).
#[derive(Debug, Clone, Copy, PartialEq, Eq, Structural)]
pub struct BatteryInfo {
    /// Battery level 0-100.
    pub level: u8,
    /// Device is online.
    pub online: bool,
    /// Device is charging (may not be available).
    pub charging: bool,
    /// Device is idle (no recent key activity).
    pub idle: bool,
}

impl Default for BatteryInfo {
    fn default() -> (r: Self)
        ensures
            r == (BatteryInfo { level: 0, online: false, charging: false, idle: false }),
    {
        BatteryInfo { level: 0, online: false, charging: false, idle: false }
    }
}

/// Keyboard options, as both option commands carry them:
/// `[os_mode, fn_layer, anti_mistouch, rt_stability, wasd_swap]`.
///
/// Both commands carry the whole set, so changing one field means read-modify-write.
#[derive(Debug, Clone, Copy, PartialEq, Eq, Structural)]
pub struct KeyboardOptions {
    /// OS mode (0=Windows, 1=macOS, 2=iOS, 3=Android); firmware keeps 2 bits.
    pub os_mode: u8,
    /// Fn layer index; firmware keeps 1 bit, so only 0 or 1.
    pub fn_layer: u8,
    /// Anti-mistouch enabled.
    pub anti_mistouch: bool,
    /// Rapid Trigger stability level (0=off, 1-5), [`RT_STABILITY_STEP_MS`] per level.
    pub rt_stability: u8,
    /// WASD/arrow swap.
    pub wasd_swap: bool,
}

/// Milliseconds per Rapid Trigger stability level.
pub const RT_STABILITY_STEP_MS: u16 = 25;

/// Highest Rapid Trigger stability level the firmware accepts.
pub const RT_STABILITY_MAX: u8 = 5;

impl Default for KeyboardOptions {
    fn default() -> (r: Self)
        ensures
            r == KeyboardOptions::zero(),
    {
        KeyboardOptions {
            os_mode: 0,
            fn_layer: 0,
            anti_mistouch: false,
            rt_stability: 0,
            wasd_swap: false,
        }
    }
}

/// A flag as the byte that the wire carries.
pub open spec fn flag(b: bool) -> u8 {
    if b {
        1
    } else {
        0
    }
}

impl KeyboardOptions {
    /// Everything off.
    pub open spec fn zero() -> KeyboardOptions {
        KeyboardOptions {
            os_mode: 0,
            fn_layer: 0,
            anti_mistouch: false,
            rt_stability: 0,
            wasd_swap: false,
        }
    }

    /// The options that a payload describes.
    pub open spec fn decoded(b: Seq<u8>) -> KeyboardOptions {
        if b.len() < 5 {
            KeyboardOptions::zero()
        } else {
            KeyboardOptions {
                os_mode: b[0] % 4,
                fn_layer: b[1] % 2,
                anti_mistouch: b[2] != 0,
                rt_stability: if b[3] > RT_STABILITY_MAX {
                    0
                } else {
                    b[3]
                },
                wasd_swap: b[4] != 0,
            }
        }
    }

    /// The payload that describes these options.
    pub open spec fn encoded(self) -> Seq<u8> {
        seq![
            self.os_mode % 4,
            self.fn_layer % 2,
            flag(self.anti_mistouch),
            if self.rt_stability > RT_STABILITY_MAX {
                RT_STABILITY_MAX
            } else {
                self.rt_stability
            },
            flag(self.wasd_swap),
        ]
    }

    /// Whether every field is one that the firmware keeps as it is.
    pub open spec fn in_range(self) -> bool {
        self.os_mode < 4 && self.fn_layer < 2 && self.rt_stability <= RT_STABILITY_MAX
    }

    /// The OS mode as text.
    pub open spec fn os_name(mode: u8) -> Seq<char> {
        if mode == 0 {
            "Windows"@
        } else if mode == 1 {
            "macOS"@
        } else if mode == 2 {
            "iOS"@
        } else if mode == 3 {
            "Android"@
        } else {
            "Unknown"@
        }
    }

    /// Parse a payload (response bytes after the command byte). The firmware stores
    /// stability levels out of range but treats them as off, and so does this.
    pub fn from_bytes(bytes: &[u8]) -> (r: Self)
        ensures
            r == KeyboardOptions::decoded(bytes@),
    {
        if bytes.len() < 5 {
            return KeyboardOptions::default();
        }
        proof {
            lemma_byte_masks(bytes@[0]);
            lemma_byte_masks(bytes@[1]);
        }
        KeyboardOptions {
            os_mode: bytes[0] & 0x03,
            fn_layer: bytes[1] & 0x01,
            anti_mistouch: bytes[2] != 0,
            rt_stability: if bytes[3] > RT_STABILITY_MAX {
                0
            } else {
                bytes[3]
            },
            wasd_swap: bytes[4] != 0,
        }
    }

    /// The payload that sets these options.
    pub fn to_bytes(&self) -> (r: [u8; 5])
        ensures
            r@ == self.encoded(),
    {
        proof {
            lemma_byte_masks(self.os_mode);
            lemma_byte_masks(self.fn_layer);
        }
        let r = [
            self.os_mode & 0x03,
            self.fn_layer & 0x01,
            if self.anti_mistouch {
                1
            } else {
                0
            },
            if self.rt_stability > RT_STABILITY_MAX {
                RT_STABILITY_MAX
            } else {
                self.rt_stability
            },
            if self.wasd_swap {
                1
            } else {
                0
            },
        ];
        assert(r@ =~= self.encoded());
        r
    }

    /// Rapid Trigger stability window in milliseconds.
    pub fn rt_stability_ms(&self) -> (r: u16)
        ensures
            r == self.rt_stability * RT_STABILITY_STEP_MS,
    {
        self.rt_stability as u16 * RT_STABILITY_STEP_MS
    }

    /// Human-readable OS mode.
    pub fn os_mode_name(&self) -> (r: &'static str)
        ensures
            r@ == KeyboardOptions::os_name(self.os_mode),
    {
        os_mode_name(self.os_mode)
    }
}

/// Human-readable name for an OS mode value.
pub fn os_mode_name(mode: u8) -> (r: &'static str)
    ensures
        r@ == KeyboardOptions::os_name(mode),
{
    match mode {
        0 => "Windows",
        1 => "macOS",
        2 => "iOS",
        3 => "Android",
        _ => "Unknown",
    }
}

/// Options in range survive being written and read back.
pub proof fn options_round_trip(o: KeyboardOptions)
    requires
        o.in_range(),
    ensures
        KeyboardOptions::decoded(o.encoded()) == o,
{
}

/// What is read is always in range, and what is written reads back in range, so a
/// read-modify-write never carries a field the firmware would change.
pub proof fn options_read_in_range(b: Seq<u8>)
    ensures
        KeyboardOptions::decoded(b).in_range(),
{
}

/// Sleep time settings for wireless modes.
///
/// Idle and deep sleep timeouts for Bluetooth and 2.4GHz connections, in seconds; 0
/// disables a timeout.
#[derive(Debug, Clone, Copy, PartialEq, Eq, Structural)]
pub struct SleepTimeSettings {
    /// Bluetooth idle timeout - keyboard enters light sleep.
    pub idle_bt: u16,
    /// 2.4GHz idle timeout - keyboard enters light sleep.
    pub idle_24g: u16,
    /// Bluetooth deep sleep timeout - keyboard powers down further.
    pub deep_bt: u16,
    /// 2.4GHz deep sleep timeout - keyboard powers down further.
    pub deep_24g: u16,
}

impl Default for SleepTimeSettings {
    fn default() -> (r: Self)
        ensures
            r == SleepTimeSettings::standard(),
    {
        SleepTimeSettings { idle_bt: 120, idle_24g: 120, deep_bt: 1680, deep_24g: 1680 }
    }
}

/// The text of a duration in seconds. From an hour on, the seconds are left out.
pub open spec fn duration_text(secs: nat) -> Seq<char> {
    if secs == 0 {
        "disabled"@
    } else if secs < 60 {
        dec(secs) + "s"@
    } else if secs < 3600 {
        if secs % 60 == 0 {
            dec(secs / 60) + "m"@
        } else {
            dec(secs / 60) + "m "@ + dec(secs % 60) + "s"@
        }
    } else {
        if secs % 3600 / 60 == 0 {
            dec(secs / 3600) + "h"@
        } else {
            dec(secs / 3600) + "h "@ + dec(secs % 3600 / 60) + "m"@
        }
    }
}

/// Seconds in the unit `c`, if `c` is a unit.
pub open spec fn unit_seconds(c: char) -> Option<nat> {
    if c == 'h' {
        Some(3600)
    } else if c == 'm' {
        Some(60)
    } else if c == 's' {
        Some(1)
    } else {
        None
    }
}

/// The seconds that the rest `s` of a duration adds to `total`, when the digits just
/// before it write `num`.
///
/// A number counts in the unit right behind it, one at the end in seconds. Characters
/// that no number precedes are passed over. A number over 32 bits, or one with
/// something other than a unit behind it, makes the whole text invalid.
pub open spec fn duration_scan(s: Seq<char>, total: nat, num: Option<nat>) -> Option<nat>
    decreases s.len(),
{
    if s.len() == 0 {
        match num {
            Some(n) => if n <= u32::MAX {
                Some(total + n)
            } else {
                None
            },
            None => Some(total),
        }
    } else if is_digit(s[0]) {
        let before = match num {
            Some(n) => n,
            None => 0,
        };
        duration_scan(s.drop_first(), total, Some(before * 10 + digit_value(s[0])))
    } else {
        match num {
            Some(n) => match unit_seconds(s[0]) {
                Some(u) => if n <= u32::MAX {
                    duration_scan(s.drop_first(), total + n * u, None)
                } else {
                    None
                },
                None => None,
            },
            None => duration_scan(s.drop_first(), total, None),
        }
    }
}

/// The seconds that a trimmed lower-case text describes, at most 65535.
pub open spec fn duration_value(s: Seq<char>) -> Option<u16> {
    if s == "disabled"@ || s == "off"@ || s == "0"@ {
        Some(0)
    } else {
        match duration_scan(s, 0, None) {
            Some(t) => Some(if t > 65535 {
                65535u16
            } else {
                t as u16
            }),
            None => None,
        }
    }
}

impl SleepTimeSettings {
    /// Two minutes idle, 28 minutes deep.
    pub open spec fn standard() -> SleepTimeSettings {
        SleepTimeSettings { idle_bt: 120, idle_24g: 120, deep_bt: 1680, deep_24g: 1680 }
    }

    /// Create new sleep time settings.
    pub fn new(idle_bt: u16, idle_24g: u16, deep_bt: u16, deep_24g: u16) -> (r: Self)
        ensures
            r == (SleepTimeSettings { idle_bt, idle_24g, deep_bt, deep_24g }),
    {
        SleepTimeSettings { idle_bt, idle_24g, deep_bt, deep_24g }
    }

    /// Create with the same idle and deep timeout for both wireless modes.
    pub fn uniform(idle_seconds: u16, deep_seconds: u16) -> (r: Self)
        ensures
            r == (SleepTimeSettings {
                idle_bt: idle_seconds,
                idle_24g: idle_seconds,
                deep_bt: deep_seconds,
                deep_24g: deep_seconds,
            }),
    {
        SleepTimeSettings {
            idle_bt: idle_seconds,
            idle_24g: idle_seconds,
            deep_bt: deep_seconds,
            deep_24g: deep_seconds,
        }
    }

    /// Idle timeout as text.
    pub fn format_idle(&self, is_bt: bool) -> (r: String)
        ensures
            r@ == duration_text((if is_bt { self.idle_bt } else { self.idle_24g }) as nat),
    {
        let secs: u16 = if is_bt {
            self.idle_bt
        } else {
            self.idle_24g
        };
        SleepTimeSettings::format_duration(secs)
    }

    /// Deep sleep timeout as text.
    pub fn format_deep(&self, is_bt: bool) -> (r: String)
        ensures
            r@ == duration_text((if is_bt { self.deep_bt } else { self.deep_24g }) as nat),
    {
        let secs: u16 = if is_bt {
            self.deep_bt
        } else {
            self.deep_24g
        };
        SleepTimeSettings::format_duration(secs)
    }

    /// Seconds as a human-readable duration.
    pub fn format_duration(secs: u16) -> (r: String)
        ensures
            r@ == duration_text(secs as nat),
    {
        let mut out = String::new();
        if secs == 0 {
            return "disabled".to_owned();
        }
        if secs < 60 {
            push_dec(&mut out, secs as u64);
            out.append("s");
        } else if secs < 3600 {
            push_dec(&mut out, (secs / 60) as u64);
            if secs % 60 == 0 {
                out.append("m");
            } else {
                out.append("m ");
                push_dec(&mut out, (secs % 60) as u64);
                out.append("s");
            }
        } else {
            push_dec(&mut out, (secs / 3600) as u64);
            if secs % 3600 / 60 == 0 {
                out.append("h");
            } else {
                out.append("h ");
                push_dec(&mut out, (secs % 3600 / 60) as u64);
                out.append("m");
            }
        }
        assert(out@ =~= duration_text(secs as nat));
        out
    }

    /// Parse a duration (e.g. "2m", "30s", "1h 30m") to seconds, at most 65535. Letters
    /// may be in either case and white space around the text does not count.
    pub fn parse_duration(s: &str) -> (r: Option<u16>)
        ensures
            r == duration_value(lowercased(trimmed(s@))),
            all_ascii(s@) ==> r == duration_value(
                trimmed(s@).map_values(|c: char| ascii_lower(c)),
            ),
    {
        let t: &str = trim(s);
        let low: String = to_lowercase(t);
        proof {
            if all_ascii(s@) {
                lemma_trimmed_within(s@);
            }
        }
        parse_normalized_duration(low.as_str())
    }
}

/// Trimming keeps an ASCII text ASCII.
proof fn lemma_trimmed_within(s: Seq<char>)
    requires
        all_ascii(s),
    ensures
        all_ascii(trimmed(s)),
    decreases s.len(),
{
    if s.len() > 0 && is_white_space(s.first()) {
        lemma_trimmed_within(s.drop_first());
    } else if s.len() > 0 && is_white_space(s.last()) {
        lemma_trimmed_within(s.drop_last());
    }
}

/// Parse a duration that is already trimmed and in lower case.
pub fn parse_normalized_duration(s: &str) -> (r: Option<u16>)
    ensures
        r == duration_value(s@),
{
    if str_eq(s, "disabled") || str_eq(s, "off") || str_eq(s, "0") {
        return Some(0);
    }
    let cs: Vec<char> = chars_of(s);
    let mut total: u64 = 0;
    let mut num: u64 = 0;
    let mut has_num: bool = false;
    let ghost mut t: nat = 0;
    let ghost mut n: Option<nat> = None;
    let mut i: usize = 0;
    assert(s@.skip(0) =~= s@);
    while i < cs.len()
        invariant
            cs@ == s@,
            s@ != "disabled"@ && s@ != "off"@ && s@ != "0"@,
            i <= cs.len(),
            duration_scan(s@, 0, None) == duration_scan(s@.skip(i as int), t, n),
            total == (if t > 65535 { 65535 } else { t }),
            has_num == (n is Some),
            n matches Some(v) ==> num == (if v > u32::MAX { u32::MAX + 1 } else { v as int }),
        decreases cs.len() - i,
    {
        let c: char = cs[i];
        assert(s@.skip(i as int).drop_first() =~= s@.skip(i + 1));
        if '0' <= c && c <= '9' {
            let d: u64 = (c as u32 - 48) as u64;
            let before: u64 = if has_num {
                num
            } else {
                0
            };
            let next: u64 = before * 10 + d;
            num = if next > u32::MAX as u64 {
                u32::MAX as u64 + 1
            } else {
                next
            };
            has_num = true;
            proof {
                let b: nat = match n {
                    Some(v) => v,
                    None => 0,
                };
                n = Some(b * 10 + digit_value(c));
            }
        } else if has_num {
            let unit: u64 = match c {
                'h' => 3600,
                'm' => 60,
                's' => 1,
                _ => {
                    return None;
                },
            };
            if num > u32::MAX as u64 {
                return None;
            }
            proof {
                t = t + n->0 * unit as nat;
                n = None;
            }
            assert(num * unit <= u32::MAX * 3600) by (nonlinear_arith)
                requires
                    num <= u32::MAX,
                    unit <= 3600,
            ;
            let sum: u64 = total + num * unit;
            total = if sum > 65535 {
                65535
            } else {
                sum
            };
            has_num = false;
        }
        i += 1;
    }
    assert(s@.skip(i as int) =~= Seq::<char>::empty());
    if has_num {
        if num > u32::MAX as u64 {
            return None;
        }
        total = total + num;
    }
    Some(if total > 65535 {
        65535
    } else {
        total as u16
    })
}

/// Scanning the digits of `n` leaves `n` as the pending number.
pub proof fn lemma_scan_dec(n: nat, rest: Seq<char>, total: nat)
    ensures
        duration_scan(dec(n) + rest, total, None) == duration_scan(rest, total, Some(n)),
    decreases n,
{
    if n < 10 {
        assert((dec(n) + rest).drop_first() =~= rest);
        assert((dec(n) + rest)[0] == digit_char(n as int));
    } else {
        let d = digit_char((n % 10) as int);
        let tail = seq![d] + rest;
        assert(dec(n) + rest =~= dec(n / 10) + tail);
        lemma_scan_dec(n / 10, tail, total);
        assert(tail.drop_first() =~= rest);
        assert(tail[0] == d);
    }
}

/// A written number has only digits, and at least one.
proof fn lemma_dec_digits(n: nat)
    ensures
        dec(n).len() > 0,
        forall|i: int| 0 <= i < dec(n).len() ==> is_digit(#[trigger] dec(n)[i]),
    decreases n,
{
    if n >= 10 {
        lemma_dec_digits(n / 10);
    }
}

/// One unit behind the pending number adds to the total.
proof fn lemma_scan_unit(c: char, rest: Seq<char>, total: nat, n: nat)
    requires
        unit_seconds(c) is Some,
        n <= u32::MAX,
    ensures
        duration_scan(seq![c] + rest, total, Some(n)) == duration_scan(
            rest,
            total + n * unit_seconds(c)->0,
            None,
        ),
{
    assert((seq![c] + rest).drop_first() =~= rest);
}

/// A number and a unit scan to the number of seconds.
pub proof fn lemma_scan_one(a: nat, c: char)
    requires
        unit_seconds(c) is Some,
        a <= u32::MAX,
    ensures
        duration_scan(dec(a) + seq![c], 0, None) == Some(a * unit_seconds(c)->0),
{
    let none = Seq::<char>::empty();
    assert(seq![c] + none =~= seq![c]);
    lemma_scan_dec(a, seq![c], 0);
    lemma_scan_unit(c, none, 0, a);
}

/// Two numbers, each with its unit and a blank between, scan to their sum.
pub proof fn lemma_scan_two(a: nat, c: char, b: nat, d: char)
    requires
        unit_seconds(c) is Some,
        unit_seconds(d) is Some,
        a <= u32::MAX,
        b <= u32::MAX,
    ensures
        duration_scan(dec(a) + seq![c, ' '] + dec(b) + seq![d], 0, None) == Some(
            a * unit_seconds(c)->0 + b * unit_seconds(d)->0,
        ),
{
    let none = Seq::<char>::empty();
    let end = dec(b) + (seq![d] + none);
    let mid = seq![' '] + end;
    assert(dec(a) + seq![c, ' '] + dec(b) + seq![d] =~= dec(a) + (seq![c] + mid));
    lemma_scan_dec(a, seq![c] + mid, 0);
    lemma_scan_unit(c, mid, 0, a);
    let t1 = a * unit_seconds(c)->0;
    assert(mid.drop_first() =~= end);
    assert(duration_scan(mid, t1, None) == duration_scan(end, t1, None));
    lemma_scan_dec(b, seq![d] + none, t1);
    lemma_scan_unit(d, none, t1, b);
}

/// Characters that a formatted duration is made of.
spec fn plain(c: char) -> bool {
    is_digit(c) || c == ' ' || 'a' <= c <= 'z'
}

/// A formatted duration has no other characters than digits, small letters and blanks;
/// it starts with a digit unless it is `disabled`, and ends with a letter.
proof fn lemma_duration_plain(n: nat)
    ensures
        forall|i: int| 0 <= i < duration_text(n).len() ==> plain(#[trigger] duration_text(n)[i]),
        n > 0 ==> is_digit(duration_text(n).first()),
        duration_text(n).len() > 0,
        'a' <= duration_text(n).last() <= 'z',
{
    reveal_strlit("disabled");
    reveal_strlit("s");
    reveal_strlit("m");
    reveal_strlit("h");
    reveal_strlit("m ");
    reveal_strlit("h ");
    lemma_dec_digits(n);
    lemma_dec_digits(n / 60);
    lemma_dec_digits(n % 60);
    lemma_dec_digits(n / 3600);
    lemma_dec_digits(n % 3600 / 60);
}

/// Reading a formatted duration gives back the seconds that formatting kept: all of
/// them below an hour, the full minutes from an hour on. Lower-casing and trimming
/// leave the text as it is.
pub proof fn duration_round_trip(secs: u16)
    ensures
        duration_value(duration_text(secs as nat)) == Some(
            if secs < 3600 {
                secs
            } else {
                (secs - secs % 60) as u16
            },
        ),
        trimmed(duration_text(secs as nat)).map_values(|c: char| ascii_lower(c))
            == duration_text(secs as nat),
        all_ascii(duration_text(secs as nat)),
{
    let n = secs as nat;
    let text = duration_text(n);
    lemma_duration_plain(n);
    assert(!is_white_space(text.last()));
    assert(!is_white_space(text.first())) by {
        reveal_strlit("disabled");
    }
    assert forall|i: int| 0 <= i < text.len() implies (text[i] as u32) < 128 && ascii_lower(
        text[i],
    ) == text[i] by {
        assert(plain(text[i]));
    }
    assert(text.map_values(|c: char| ascii_lower(c)) =~= text);
    lemma_duration_scanned(n);
    if n > 0 {
        assert(text != "disabled"@ && text != "off"@ && text != "0"@) by {
            reveal_strlit("disabled");
            reveal_strlit("off");
            reveal_strlit("0");
            assert("0"@.last() == '0');
            assert("off"@.first() == 'o');
            assert("disabled"@.first() == 'd');
        }
    }
}

/// What scanning a formatted duration gives.
proof fn lemma_duration_scanned(n: nat)
    requires
        0 <= n <= 65535,
    ensures
        n > 0 ==> duration_scan(duration_text(n), 0, None) == Some(
            if n < 3600 {
                n
            } else {
                (n - n % 60) as nat
            },
        ),
{
    reveal_strlit("s");
    reveal_strlit("m");
    reveal_strlit("h");
    reveal_strlit("m ");
    reveal_strlit("h ");
    assert("s"@ =~= seq!['s'] && "m"@ =~= seq!['m'] && "h"@ =~= seq!['h']);
    assert("m "@ =~= seq!['m', ' '] && "h "@ =~= seq!['h', ' ']);
    assert(n * unit_seconds('s')->0 == n * 1);
    assert((n % 60) * unit_seconds('s')->0 == (n % 60) * 1);
    assert((n / 60) * unit_seconds('m')->0 == (n / 60) * 60);
    assert((n % 3600 / 60) * unit_seconds('m')->0 == (n % 3600 / 60) * 60);
    assert((n / 3600) * unit_seconds('h')->0 == (n / 3600) * 3600);
    if n == 0 {
    } else if n < 60 {
        lemma_scan_one(n, 's');
    } else if n < 3600 {
        if n % 60 == 0 {
            lemma_scan_one(n / 60, 'm');
        } else {
            lemma_scan_two(n / 60, 'm', n % 60, 's');
        }
    } else {
        assert(n % 3600 % 60 == n % 60) by {
            vstd::arithmetic::div_mod::lemma_mod_mod(n as int, 60, 60);
        }
        if n % 3600 / 60 == 0 {
            lemma_scan_one(n / 3600, 'h');
        } else {
            lemma_scan_two(n / 3600, 'h', n % 3600 / 60, 'm');
        }
    }
}

/// Device feature list.
#[derive(Debug, Clone, PartialEq, Eq)]
pub struct FeatureList {
    /// Precision byte; 0xFF when the response was not valid.
    pub precision: u8,
    /// Raw feature flags.
    pub raw_features: Vec<u8>,
}

impl Default for FeatureList {
    fn default() -> (r: Self)
        ensures
            r.precision == 0,
            r.raw_features@ == Seq::<u8>::empty(),
    {
        FeatureList { precision: 0, raw_features: Vec::new() }
    }
}

impl FeatureList {
    /// The precision byte that a response carries, 0xFF when there is none: the
    /// response must open with the validity marker 0xAA.
    pub open spec fn precision_byte(b: Seq<u8>) -> u8 {
        if b.len() >= 2 && b[0] == 0xAA {
            b[1]
        } else {
            0xFF
        }
    }

    /// The level that a precision byte stands for, none when unknown.
    pub open spec fn level(byte: u8) -> Option<Precision> {
        if byte == 0xFF {
            None
        } else {
            Some(Precision::of_feature_byte(byte))
        }
    }

    /// Parse a response after the echo byte: `[0xAA, precision, ...]`. Without the
    /// marker the response is invalid, and the precision is unknown.
    pub fn from_bytes(bytes: &[u8]) -> (r: Self)
        ensures
            r.precision == FeatureList::precision_byte(bytes@),
            r.raw_features@ == bytes@,
    {
        let valid: bool = bytes.len() > 0 && bytes[0] == 0xAA;
        FeatureList {
            precision: if valid && bytes.len() > 1 {
                bytes[1]
            } else {
                0xFF
            },
            raw_features: copy_bytes(bytes),
        }
    }

    /// Whether the response was valid.
    pub fn is_valid(&self) -> (r: bool)
        ensures
            r == (self.precision != 0xFF),
    {
        self.precision != 0xFF
    }

    /// Precision level, `None` when the response was invalid (command not supported):
    /// fall back to the firmware version in that case.
    pub fn precision(&self) -> (r: Option<Precision>)
        ensures
            r == FeatureList::level(self.precision),
    {
        if self.is_valid() {
            Some(Precision::from_feature_byte(self.precision))
        } else {
            None
        }
    }
}

impl View for Precision {
    type V = Precision;

    open spec fn view(&self) -> Precision {
        *self
    }
}

impl View for FirmwareVersion {
    type V = FirmwareVersion;

    open spec fn view(&self) -> FirmwareVersion {
        *self
    }
}

impl View for BatteryInfo {
    type V = BatteryInfo;

    open spec fn view(&self) -> BatteryInfo {
        *self
    }
}

impl View for KeyboardOptions {
    type V = KeyboardOptions;

    open spec fn view(&self) -> KeyboardOptions {
        *self
    }
}

impl View for SleepTimeSettings {
    type V = SleepTimeSettings;

    open spec fn view(&self) -> SleepTimeSettings {
        *self
    }
}

impl View for FeatureList {
    type V = (u8, Seq<u8>);

    open spec fn view(&self) -> (u8, Seq<u8>) {
        (self.precision, self.raw_features@)
    }
}

} // verus!
