//! What values stand for, and how they are shown, stepped and read.

use crate::laws::text::{decimal, lemma_dec, worth};
use crate::settings::{
    duration_round_trip, lemma_scan_dec, lemma_scan_one, lemma_scan_two, os_mode_name,
    parse_normalized_duration, unit_seconds, BatteryInfo, FeatureList, FirmwareVersion,
    KeyboardOptions, Precision, PrecisionThresholds, SleepTimeSettings, TravelDepth,
};
use crate::spinner::{
    debounce_spinner, fn_layer_spinner, level_spinner, os_mode_spinner, rgb_spinner,
    rt_stability_spinner, sleep_time_spinner, SpinnerConfig,
};
use crate::text::{dec, dec2, digit_char, padded_right};
use crate::tui_input::Area;
use crate::tui_state::{App, BatterySource, PickerItem};
use crate::tui_view::{
    battery_text, picker_area, picker_line, profile_text, status_text, tab_hint, title_text,
};
use vstd::prelude::*;

verus! {

/// A duration that is shown is read as that duration; from an hour on, the seconds are left
/// out.
pub proof fn shown_durations_are_read(secs: u16, s: String, t: &str, r: Option<u16>)
    requires
        call_ensures(SleepTimeSettings::format_duration, (secs,), s),
        t@ == s@,
        call_ensures(SleepTimeSettings::parse_duration, (t,), r),
    ensures
        r is Some,
        secs < 3600 ==> r->0 == secs,
        secs >= 3600 ==> r->0 <= secs < r->0 + 60 && r->0 % 60 == 0,
{
    duration_round_trip(secs);
}

/// A duration is shown in the largest units that fit, without parts that are zero.
pub proof fn durations_are_shown_in_their_units(secs: u16, r: String)
    requires
        call_ensures(SleepTimeSettings::format_duration, (secs,), r),
    ensures
        secs == 0 ==> r@ == "disabled"@,
        0 < secs < 60 ==> r@ == dec(secs as nat) + seq!['s'],
        60 <= secs < 3600 && secs % 60 == 0 ==> r@ == dec((secs / 60) as nat) + seq!['m'],
        60 <= secs < 3600 && secs % 60 != 0
            ==> r@ == dec((secs / 60) as nat) + seq!['m', ' '] + dec(
            (secs % 60) as nat,
        ) + seq!['s'],
        3600 <= secs && secs / 60 % 60 == 0 ==> r@ == dec((secs / 3600) as nat) + seq!['h'],
        3600 <= secs && secs / 60 % 60 != 0 ==> r@ == dec((secs / 3600) as nat) + seq!['h', ' ']
            + dec((secs / 60 % 60) as nat) + seq!['m'],
{
    reveal_strlit("s");
    reveal_strlit("m");
    reveal_strlit("h");
    reveal_strlit("m ");
    reveal_strlit("h ");
    assert("s"@ =~= seq!['s'] && "m"@ =~= seq!['m'] && "h"@ =~= seq!['h']);
    assert("m "@ =~= seq!['m', ' '] && "h "@ =~= seq!['h', ' ']);
    assert(secs % 3600 / 60 == secs / 60 % 60);
}

/// Seconds, cut off at what the keyboard can store.
pub open spec fn stored_seconds(n: nat) -> u16 {
    if n > 65535 {
        65535
    } else {
        n as u16
    }
}

/// A number counts in the unit behind it, in seconds if there is none.
pub proof fn durations_are_read_in_their_units(
    n: nat,
    hours: &str,
    minutes: &str,
    seconds: &str,
    bare: &str,
    h: Option<u16>,
    m: Option<u16>,
    s: Option<u16>,
    b: Option<u16>,
)
    requires
        n <= u32::MAX,
        hours@ == dec(n) + seq!['h'],
        minutes@ == dec(n) + seq!['m'],
        seconds@ == dec(n) + seq!['s'],
        bare@ == dec(n),
        call_ensures(parse_normalized_duration, (hours,), h),
        call_ensures(parse_normalized_duration, (minutes,), m),
        call_ensures(parse_normalized_duration, (seconds,), s),
        call_ensures(parse_normalized_duration, (bare,), b),
    ensures
        h == Some(stored_seconds(n * 3600)),
        m == Some(stored_seconds(n * 60)),
        s == Some(stored_seconds(n)),
        b == Some(stored_seconds(n)),
{
    lemma_scan_one(n, 'h');
    lemma_scan_one(n, 'm');
    lemma_scan_one(n, 's');
    assert(n * unit_seconds('s')->0 == n * 1);
    assert(n * unit_seconds('m')->0 == n * 60);
    assert(n * unit_seconds('h')->0 == n * 3600);
    let none = Seq::<char>::empty();
    assert(dec(n) + none =~= dec(n));
    lemma_scan_dec(n, none, 0);
    lemma_dec(n);
    lemma_no_word(hours@);
    lemma_no_word(minutes@);
    lemma_no_word(seconds@);
    reveal_strlit("0");
    reveal_strlit("off");
    reveal_strlit("disabled");
    assert("off"@[0] == 'o' && "disabled"@[0] == 'd');
    if bare@ == "0"@ {
        assert(n == 0) by {
            if n > 0 {
                assert("0"@[0] == '0');
            }
        }
    }
}

/// A text that starts with a digit and ends in a letter is none of the words for no
/// duration.
proof fn lemma_no_word(s: Seq<char>)
    requires
        s.len() > 0,
        '0' <= s[0] <= '9',
        'a' <= s.last() <= 'z',
    ensures
        s != "disabled"@,
        s != "off"@,
        s != "0"@,
{
    reveal_strlit("0");
    reveal_strlit("off");
    reveal_strlit("disabled");
    assert("off"@[0] == 'o' && "disabled"@[0] == 'd' && "0"@.last() == '0');
}

/// Parts of a duration add up.
pub proof fn parts_of_durations_add_up(a: nat, b: nat, text: &str, other: &str, r: Option<u16>, s:
    Option<u16>)
    requires
        a <= u32::MAX,
        b <= u32::MAX,
        text@ == dec(a) + seq!['h', ' '] + dec(b) + seq!['m'],
        other@ == dec(a) + seq!['m', ' '] + dec(b) + seq!['s'],
        call_ensures(parse_normalized_duration, (text,), r),
        call_ensures(parse_normalized_duration, (other,), s),
    ensures
        r == Some(stored_seconds(a * 3600 + b * 60)),
        s == Some(stored_seconds(a * 60 + b)),
{
    lemma_scan_two(a, 'h', b, 'm');
    lemma_scan_two(a, 'm', b, 's');
    assert(a * unit_seconds('h')->0 == a * 3600);
    assert(a * unit_seconds('m')->0 == a * 60);
    assert(b * unit_seconds('m')->0 == b * 60);
    assert(b * unit_seconds('s')->0 == b * 1);
    lemma_dec(a);
    lemma_no_word(text@);
    lemma_no_word(other@);
}

/// The words for no duration are read as zero, and a number before something that is no
/// unit as nothing.
pub proof fn other_durations(
    word: &str,
    odd: &str,
    n: nat,
    c: char,
    r: Option<u16>,
    s: Option<u16>,
)
    requires
        word@ == "off"@ || word@ == "disabled"@ || word@ == "0"@,
        odd@ == dec(n) + seq![c],
        !('0' <= c <= '9') && c != 'h' && c != 'm' && c != 's',
        call_ensures(parse_normalized_duration, (word,), r),
        call_ensures(parse_normalized_duration, (odd,), s),
    ensures
        r == Some(0u16),
        s is None,
{
    lemma_scan_dec(n, seq![c], 0);
    lemma_dec(n);
    reveal_strlit("0");
    reveal_strlit("off");
    reveal_strlit("disabled");
    assert("off"@[0] == 'o' && "disabled"@[0] == 'd' && "0"@.len() == 1);
    assert(odd@[0] == dec(n)[0]);
    assert(odd@.len() >= 2);
}

/// Sleep times are kept under their names, and shown for the link that is asked for.
pub proof fn sleep_times_are_kept_by_name(
    a: u16,
    b: u16,
    c: u16,
    d: u16,
    s: SleepTimeSettings,
    u: SleepTimeSettings,
    standard: SleepTimeSettings,
    texts: Seq<String>,
    shown: Seq<String>,
)
    requires
        call_ensures(SleepTimeSettings::new, (a, b, c, d), s),
        call_ensures(SleepTimeSettings::uniform, (a, c), u),
        texts.len() == 4,
        shown.len() == 4,
        call_ensures(SleepTimeSettings::format_duration, (a,), texts[0]),
        call_ensures(SleepTimeSettings::format_duration, (b,), texts[1]),
        call_ensures(SleepTimeSettings::format_duration, (c,), texts[2]),
        call_ensures(SleepTimeSettings::format_duration, (d,), texts[3]),
        call_ensures(SleepTimeSettings::format_idle, (&s, true), shown[0]),
        call_ensures(SleepTimeSettings::format_idle, (&s, false), shown[1]),
        call_ensures(SleepTimeSettings::format_deep, (&s, true), shown[2]),
        call_ensures(SleepTimeSettings::format_deep, (&s, false), shown[3]),
    ensures
        s.idle_bt == a && s.idle_24g == b && s.deep_bt == c && s.deep_24g == d,
        u.idle_bt == a && u.idle_24g == a && u.deep_bt == c && u.deep_24g == c,
        shown[0]@ == texts[0]@,
        shown[1]@ == texts[1]@,
        shown[2]@ == texts[2]@,
        shown[3]@ == texts[3]@,
{
}

/// A newer firmware is never less precise, and the thresholds say from which version on it
/// is how precise.
pub proof fn precision_grows_with_the_version(
    v: u16,
    w: u16,
    t: PrecisionThresholds,
    p: Precision,
    q: Precision,
    same: Precision,
    fv: FirmwareVersion,
)
    requires
        v <= w,
        t.medium <= t.fine,
        fv.raw == v,
        call_ensures(Precision::from_firmware_version, (v, &t), p),
        call_ensures(Precision::from_firmware_version, (w, &t), q),
        call_ensures(FirmwareVersion::precision, (&fv, &t), same),
    ensures
        p == Precision::Fine <==> v >= t.fine,
        p == Precision::Coarse <==> v < t.medium,
        p == Precision::Fine ==> q == Precision::Fine,
        p == Precision::Medium ==> q != Precision::Coarse,
        same == p,
{
}

/// The raw units of a precision make up a millimetre, and its name says how long one is.
pub proof fn units_make_up_a_millimetre(
    p: Precision,
    raw: u16,
    per_mm: u16,
    um: u32,
    decimals: u32,
    name: &str,
)
    requires
        call_ensures(Precision::units_per_mm, (&p,), per_mm),
        call_ensures(Precision::raw_to_um, (&p, raw), um),
        call_ensures(Precision::decimals, (&p,), decimals),
        call_ensures(Precision::as_str, (&p,), name),
    ensures
        p == Precision::Coarse ==> per_mm == 10 && decimals == 1 && name@ == "0.1mm"@ && um == raw
            * 100,
        p == Precision::Medium ==> per_mm == 100 && decimals == 2 && name@ == "0.01mm"@ && um
            == raw * 10,
        p == Precision::Fine ==> per_mm == 200 && decimals == 3 && name@ == "0.005mm"@ && um == raw
            * 5,
        um * per_mm == raw * 1000,
{
    let u = p.unit_um() as int;
    assert(per_mm * u == 1000 && um == raw * u);
    assert(u == 100 ==> per_mm == 10 && um == raw * 100) by (nonlinear_arith)
        requires
            per_mm * u == 1000,
            um == raw * u,
    ;
    assert(u == 10 ==> per_mm == 100 && um == raw * 10) by (nonlinear_arith)
        requires
            per_mm * u == 1000,
            um == raw * u,
    ;
    assert(u == 5 ==> per_mm == 200 && um == raw * 5) by (nonlinear_arith)
        requires
            per_mm * u == 1000,
            um == raw * u,
    ;
    assert(um * per_mm == raw * 1000) by (nonlinear_arith)
        requires
            (per_mm == 10 && um == raw * 100) || (per_mm == 100 && um == raw * 10) || (per_mm == 200
                && um == raw * 5),
    ;
}

/// A travel is shown in millimetres exactly: the digits before the point are worth the
/// millimetres, those behind it the rest.
pub proof fn travel_is_shown_exactly(
    raw: u16,
    d: TravelDepth,
    back: u16,
    p: Precision,
    um: u32,
    r: String,
)
    requires
        call_ensures(TravelDepth::from_raw, (raw,), d),
        call_ensures(TravelDepth::raw, (&d,), back),
        call_ensures(Precision::raw_to_um, (&p, raw), um),
        call_ensures(TravelDepth::format_mm, (&d, p), r),
    ensures
        back == raw,
        ({
            let whole = dec((um / 1000) as nat);
            let n = whole.len() as int;
            let places = r@.skip(n + 1);
            &&& r@.take(n) == whole
            &&& r@[n] == '.'
            &&& decimal(places)
            &&& p == Precision::Coarse ==> places.len() == 1 && worth(places, 10) * 100 == um % 1000
            &&& p == Precision::Medium ==> places.len() == 2 && worth(places, 10) * 10 == um % 1000
            &&& p == Precision::Fine ==> places.len() == 3 && worth(places, 10) == um % 1000
        }),
{
    reveal_strlit(".");
    let whole = dec((um / 1000) as nat);
    let n = whole.len() as int;
    let places = r@.skip(n + 1);
    assert(r@.take(n) =~= whole);
    let (a, b, c) = (
        digit_char((um % 1000 / 100) as int),
        digit_char((um % 100 / 10) as int),
        digit_char((um % 10) as int),
    );
    reveal_with_fuel(worth, 4);
    match p {
        Precision::Coarse => {
            assert(places =~= seq![a]);
            assert(seq![a].drop_last() =~= Seq::<char>::empty());
            assert(um == raw * 100);
            assert(um % 100 == 0);
        },
        Precision::Medium => {
            assert(places =~= seq![a, b]);
            assert(seq![a, b].drop_last() =~= seq![a]);
            assert(seq![a].drop_last() =~= Seq::<char>::empty());
            assert(um == raw * 10);
            assert(um % 10 == 0);
        },
        Precision::Fine => {
            assert(places =~= seq![a, b, c]);
            assert(seq![a, b, c].drop_last() =~= seq![a, b]);
            assert(seq![a, b].drop_last() =~= seq![a]);
            assert(seq![a].drop_last() =~= Seq::<char>::empty());
        },
    }
}

/// The parts of a version word.
proof fn lemma_version_parts(lo: u8, hi: u8, w: u16)
    requires
        w == lo + 256 * hi,
    ensures
        w / 256 == hi,
        w % 256 == lo,
        w / 256 % 16 == hi % 16,
        w / 16 % 16 == lo / 16,
        w % 16 == lo % 16,
{
    assert(w / 16 == 16 * hi + lo / 16);
}

/// A version is read from its two bytes, lowest first, and shown as major and minor, or as
/// the three last hexadecimal digits.
pub proof fn versions_are_read_and_shown(
    b: &[u8],
    v: FirmwareVersion,
    short: String,
    dotted: String,
)
    requires
        b@.len() >= 9,
        call_ensures(FirmwareVersion::from_bytes, (b,), v),
        call_ensures(FirmwareVersion::format, (&v,), short),
        call_ensures(FirmwareVersion::format_dotted, (&v,), dotted),
    ensures
        v.raw == b@[7] + 256 * b@[8],
        short@ == seq!['v'] + dec(b@[8] as nat) + dec2(b@[7] as nat),
        dotted@ == dec((b@[8] % 16) as nat) + seq!['.'] + dec((b@[7] / 16) as nat) + seq!['.'] +
            dec(
            (b@[7] % 16) as nat,
        ),
{
    reveal_strlit("v");
    reveal_strlit(".");
    assert("v"@ =~= seq!['v']);
    assert("."@ =~= seq!['.']);
    assert(v.raw == b@[7] + 256 * b@[8]);
    lemma_version_parts(b@[7], b@[8], v.raw);
}

/// An answer without a version tells version zero.
pub proof fn short_answers_tell_no_version(b: &[u8], v: FirmwareVersion)
    requires
        b@.len() < 9,
        call_ensures(FirmwareVersion::from_bytes, (b,), v),
    ensures
        v.raw == 0,
{
}

/// A feature list is told by its mark and tells the precision; without the mark, none.
pub proof fn feature_lists_are_told_by_their_mark(
    b: &[u8],
    f: FeatureList,
    valid: bool,
    p: Option<Precision>,
)
    requires
        call_ensures(FeatureList::from_bytes, (b,), f),
        call_ensures(FeatureList::is_valid, (&f,), valid),
        call_ensures(FeatureList::precision, (&f,), p),
    ensures
        f.raw_features@ == b@,
        valid <==> b@.len() >= 2 && b@[0] == 0xAA && b@[1] != 0xFF,
        p is Some <==> valid,
        valid && b@[1] == 0 ==> p->0 == Precision::Coarse,
        valid && (b@[1] == 1 || b@[1] == 2) ==> p->0 == Precision::Medium,
{
}

/// Options keep their names in their bytes: each field stands in its own byte, and flags
/// are zero or one.
pub proof fn options_stand_in_their_bytes(o: KeyboardOptions, r: [u8; 5], b: &[u8], back:
    KeyboardOptions)
    requires
        o.os_mode < 4,
        o.fn_layer < 2,
        o.rt_stability <= 5,
        call_ensures(KeyboardOptions::to_bytes, (&o,), r),
        b@ == r@,
        call_ensures(KeyboardOptions::from_bytes, (b,), back),
    ensures
        r@[0] == o.os_mode,
        r@[1] == o.fn_layer,
        r@[2] == (if o.anti_mistouch {
            1u8
        } else {
            0
        }),
        r@[3] == o.rt_stability,
        r@[4] == (if o.wasd_swap {
            1u8
        } else {
            0
        }),
        back == o,
{
}

/// What is read of options is in range, whatever the bytes are; a level that is too high
/// counts as off, and one that is to be written is cut off.
pub proof fn options_stay_in_range(b: &[u8], o: KeyboardOptions, any: KeyboardOptions, r: [u8; 5],
    ms: u16)
    requires
        call_ensures(KeyboardOptions::from_bytes, (b,), o),
        call_ensures(KeyboardOptions::to_bytes, (&any,), r),
        call_ensures(KeyboardOptions::rt_stability_ms, (&any,), ms),
    ensures
        o.os_mode < 4 && o.fn_layer < 2 && o.rt_stability <= 5,
        b@.len() >= 5 && b@[3] > 5 ==> o.rt_stability == 0,
        b@.len() >= 5 && b@[3] <= 5 ==> o.rt_stability == b@[3],
        b@.len() >= 5 ==> o.anti_mistouch == (b@[2] != 0) && o.wasd_swap == (b@[4] != 0),
        any.rt_stability > 5 ==> r@[3] == 5,
        ms == 25 * any.rt_stability,
{
}

/// The systems by their number.
pub proof fn systems_are_named(mode: u8, r: &str)
    requires
        call_ensures(os_mode_name, (mode,), r),
    ensures
        mode == 0 ==> r@ == "Windows"@,
        mode == 1 ==> r@ == "macOS"@,
        mode == 2 ==> r@ == "iOS"@,
        mode == 3 ==> r@ == "Android"@,
        mode > 3 ==> r@ == "Unknown"@,
{
}

/// A spinner goes up and down by its step and stops at its bounds; a step down undoes a
/// step up that did not stop.
pub proof fn spinners_step_within_their_bounds(
    cfg: &SpinnerConfig,
    v: u16,
    coarse: bool,
    step: int,
    up: u16,
    down: u16,
    back: u16,
)
    requires
        cfg.min <= v <= cfg.max,
        step == (if coarse {
            cfg.step_coarse as int
        } else {
            cfg.step as int
        }),
        call_ensures(SpinnerConfig::increment, (cfg, v, coarse), up),
        call_ensures(SpinnerConfig::decrement, (cfg, v, coarse), down),
        call_ensures(SpinnerConfig::decrement, (cfg, up, coarse), back),
    ensures
        v <= up <= cfg.max,
        up == v + step || (up == cfg.max && v + step > cfg.max),
        cfg.min <= down <= v,
        down == v - step || (down == cfg.min && v - step < cfg.min),
        v + step <= cfg.max ==> back == v,
{
}

/// On a byte a spinner steps as on a number, up to the largest byte.
pub proof fn spinners_step_bytes_alike(
    cfg: &SpinnerConfig,
    v: u8,
    coarse: bool,
    up: u16,
    down: u16,
    up8: u8,
    down8: u8,
)
    requires
        cfg.min <= cfg.max,
        cfg.max <= 255,
        call_ensures(SpinnerConfig::increment, (cfg, v as u16, coarse), up),
        call_ensures(SpinnerConfig::decrement, (cfg, v as u16, coarse), down),
        call_ensures(SpinnerConfig::increment_u8, (cfg, v, coarse), up8),
        call_ensures(SpinnerConfig::decrement_u8, (cfg, v, coarse), down8),
    ensures
        up8 == up,
        down8 == down,
{
}

/// Each setting has the bounds and the steps that the firmware has for it.
pub proof fn spinners_have_their_bounds(
    rgb: SpinnerConfig,
    level: SpinnerConfig,
    debounce: SpinnerConfig,
    layer: SpinnerConfig,
    stability: SpinnerConfig,
    os: SpinnerConfig,
    sleep: SpinnerConfig,
)
    requires
        call_ensures(rgb_spinner, (), rgb),
        call_ensures(level_spinner, (), level),
        call_ensures(debounce_spinner, (), debounce),
        call_ensures(fn_layer_spinner, (), layer),
        call_ensures(rt_stability_spinner, (), stability),
        call_ensures(os_mode_spinner, (), os),
        call_ensures(sleep_time_spinner, (), sleep),
    ensures
        rgb.min == 0 && rgb.max == 255 && rgb.step == 1 && rgb.step_coarse == 10,
        level.min == 0 && level.max == 4 && level.step == 1 && level.step_coarse == 1,
        debounce.min == 0 && debounce.max == 25 && debounce.step == 1 && debounce.step_coarse == 5,
        layer.min == 0 && layer.max == 1 && layer.step == 1 && layer.step_coarse == 1,
        stability.min == 0 && stability.max == 5 && stability.step == 1 && stability.step_coarse
            == 1,
        os.min == 0 && os.max == 3 && os.step == 1 && os.step_coarse == 1,
        sleep.min == 0 && sleep.max == 3600 && sleep.step == 60 && sleep.step_coarse == 300,
        sleep.display is Integer && sleep.display->Integer_0@ == "s"@,
{
}

/// A spinner has the bounds and steps that it was made with; one over travel steps by at
/// least one unit. It shows a number as itself and a travel in millimetres.
pub proof fn spinners_are_made_as_asked(
    min: u16,
    max: u16,
    step: u16,
    coarse: u16,
    unit: &'static str,
    p: Precision,
    a: SpinnerConfig,
    b: SpinnerConfig,
    v: u16,
    shown_a: String,
    shown_b: String,
    d: TravelDepth,
    mm: String,
    unit_a: &str,
    unit_b: &str,
)
    requires
        call_ensures(SpinnerConfig::integer, (min, max, step, coarse, unit), a),
        call_ensures(SpinnerConfig::travel, (min, max, step, coarse, p), b),
        call_ensures(SpinnerConfig::format, (&a, v), shown_a),
        call_ensures(SpinnerConfig::format, (&b, v), shown_b),
        call_ensures(TravelDepth::from_raw, (v,), d),
        call_ensures(TravelDepth::format_mm, (&d, p), mm),
        call_ensures(SpinnerConfig::unit, (&a,), unit_a),
        call_ensures(SpinnerConfig::unit, (&b,), unit_b),
    ensures
        a.min == min && a.max == max && a.step == step && a.step_coarse == coarse,
        b.min == min && b.max == max && b.step >= 1 && b.step_coarse >= 1,
        step > 0 ==> b.step == step,
        coarse > 0 ==> b.step_coarse == coarse,
        shown_a@ == dec(v as nat),
        shown_b@ == mm@,
        unit_a@ == unit@,
        unit_b@ == "mm"@,
{
}

/// The title names the device that is connected.
pub proof fn the_title_names_the_device(connected: bool, name: &str, r: String)
    requires
        call_ensures(title_text, (connected, name), r),
    ensures
        connected && name@.len() > 0 ==> r@ == name@ + " - Configuration Tool"@,
        !connected || name@.len() == 0 ==> r@ == "MonsGeek/Akko Keyboard - Configuration Tool"@,
{
}

/// The profile is shown by its number from one, once connected; the hint tells how many
/// tabs there are.
pub proof fn the_profile_and_the_tabs_are_shown(app: &App, p: String, t: String)
    requires
        call_ensures(profile_text, (app,), p),
        call_ensures(tab_hint, (app,), t),
    ensures
        app.connected ==> p@ == " Profile "@ + dec(
            crate::laws::commands::user_number(app.info.profile),
        ) + "/4  ^P "@,
        !app.connected ==> p@ == ""@,
        t@ == " Alt+1-"@ + dec(
            if app.notify.enabled {
                4
            } else {
                3
            },
        ) + ": switch tabs "@,
{
}

/// The battery of a wireless keyboard is shown with its level, where that comes from, and
/// whether the keyboard sleeps; the sign tells the level apart in quarters.
pub proof fn the_battery_is_shown(
    b: BatteryInfo,
    path: String,
    kernel: String,
    vendor: String,
    unknown: String,
    wired: String,
    lost: String,
)
    requires
        call_ensures(battery_text, (true, &Some(b), &Some(BatterySource::Kernel(path))), kernel),
        call_ensures(battery_text, (true, &Some(b), &Some(BatterySource::Vendor)), vendor),
        call_ensures(battery_text, (true, &Some(b), &None), unknown),
        call_ensures(battery_text, (false, &Some(b), &None), wired),
        call_ensures(battery_text, (true, &None, &None), lost),
    ensures
        wired@ == ""@,
        lost@ == " ?%"@,
        ({
            let sign = if b.charging {
                "⚡"@
            } else if b.level > 75 {
                "█"@
            } else if b.level > 50 {
                "▆"@
            } else if b.level > 25 {
                "▃"@
            } else {
                "▁"@
            };
            let tail = if b.idle {
                " zzz"@
            } else {
                ""@
            };
            &&& kernel@ == " "@ + sign + dec(b.level as nat) + "%("@ + "k"@ + ")"@ + tail
            &&& vendor@ == " "@ + sign + dec(b.level as nat) + "%("@ + "v"@ + ")"@ + tail
            &&& unknown@ == " "@ + sign + dec(b.level as nat) + "%("@ + "?"@ + ")"@ + tail
        }),
{
}

/// The status line tells the connection, the profile and the battery, then the latest
/// message, or what is typed into the hex input.
pub proof fn the_status_is_shown(app: &App, battery: String, r: String)
    requires
        call_ensures(
            battery_text,
            (app.device.is_wireless, &app.battery, &app.battery_source),
            battery,
        ),
        call_ensures(status_text, (app,), r),
    ensures
        ({
            let state = if app.connected {
                "Connected"@ + " Profile "@ + dec(
                    crate::laws::commands::user_number(app.info.profile),
                )
            } else {
                "Disconnected"@
            };
            let head = " ["@ + state + battery@ + "] "@;
            &&& app.hex.editing ==> r@ == head + "Enter hex color: #"@ + app.hex.input@
                + " | Esc:Cancel Enter:Apply"@
            &&& !app.hex.editing && app.depth_monitoring ==> r@ == head + app.status_msg@
                + " | ?:Help q:Quit"@ + " MONITORING"@
            &&& !app.hex.editing && !app.depth_monitoring ==> r@ == head + app.status_msg@
                + " | ?:Help q:Quit"@ + ""@
        }),
{
}

/// The device picker stands in the middle of the screen, leaves a margin, and is as high as
/// its list where there is room.
pub proof fn the_picker_stands_in_the_middle(items: usize, screen: Area, r: Area)
    requires
        items + 4 <= u16::MAX,
        screen.height >= 9,
        call_ensures(picker_area, (items, screen), r),
    ensures
        r.x + r.width <= screen.width && r.y + r.height <= screen.height,
        2 * r.x <= screen.width - r.width <= 2 * r.x + 1,
        2 * r.y <= screen.height - r.height <= 2 * r.y + 1,
        screen.width >= 64 ==> r.width == 60,
        4 <= screen.width < 64 ==> r.width == screen.width - 4,
        items >= 1 && items + 8 <= screen.height ==> r.height == items + 4,
        items >= 1 && items + 8 > screen.height ==> r.height == screen.height - 4,
        items == 0 ==> r.height == 5,
{
}

/// A line of the picker tells index, model, transport, device id and version, and whether
/// the device sleeps.
pub proof fn picker_lines_tell_the_device(item: &PickerItem, r: String)
    requires
        call_ensures(picker_line, (item,), r),
    ensures
        ({
            let l = item.label;
            let id = match l.device_id {
                Some(id) => id as nat,
                None => 0,
            };
            let version = match l.version {
                Some(v) => " v"@ + dec((v / 100) as nat) + "."@ + dec2((v % 100) as nat),
                None => ""@,
            };
            r@ == "#"@ + padded_right(dec(l.index as nat), 2) + " "@ + padded_right(
                l.model_name@,
                22,
            ) + " "@ + padded_right(l.transport_name@, 7) + " ["@ + dec(id) + version + "]"@ + (
            if item.responsive {
                ""@
            } else {
                " (asleep)"@
            })
        }),
{
}

} // verus!
