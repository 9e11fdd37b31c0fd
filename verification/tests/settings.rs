use iot_driver::bits::{double_word, high_byte, low_byte, word};
use iot_driver::key_action::KeyAction;
use iot_driver::magnetism::resolve_slot0;
use iot_driver::protocol::{HidUsage, MacroSlot};
use iot_driver::settings::{
    FeatureList, FirmwareVersion, KeyboardOptions, Precision, PrecisionThresholds,
    SleepTimeSettings, TravelDepth, RT_STABILITY_MAX,
};
use iot_driver::text::parse_number;

#[test]
fn dks_slot0_preserves_current_output_when_left_empty() {
    assert_eq!(resolve_slot0([0; 4], [9, 0, 3, 0]), [9, 0, 3, 0]);
    assert_eq!(resolve_slot0([0; 4], [0, 0, 0x06, 0]), [0, 0, 0x06, 0]);
    // An explicit request always wins.
    assert_eq!(
        resolve_slot0([0, 0xE0, 0x06, 0], [0, 0, 0x04, 0]),
        [0, 0xE0, 0x06, 0]
    );
    // Nothing to preserve.
    assert_eq!(resolve_slot0([0; 4], [0; 4]), [0; 4]);
}

#[test]
fn kb_options_wire_layout() {
    // os=macOS, fn=1, anti-mistouch on, RT level 3, swap on
    let opts = KeyboardOptions::from_bytes(&[1, 1, 1, 3, 1]);
    assert_eq!(opts.os_mode, 1);
    assert_eq!(opts.os_mode_name(), "macOS");
    assert_eq!(opts.fn_layer, 1);
    assert!(opts.anti_mistouch);
    assert_eq!(opts.rt_stability, 3);
    assert_eq!(opts.rt_stability_ms(), 75);
    assert!(opts.wasd_swap);

    assert_eq!(opts.to_bytes(), [1, 1, 1, 3, 1]);
}

#[test]
fn kb_options_masks_firmware_field_widths() {
    // The firmware keeps 2 bits of OS mode and 1 bit of Fn layer
    let opts = KeyboardOptions::from_bytes(&[0xFF, 0xFF, 0, 0, 0]);
    assert_eq!(opts.os_mode, 3);
    assert_eq!(opts.fn_layer, 1);

    let clamped = KeyboardOptions {
        os_mode: 7,
        fn_layer: 3,
        rt_stability: 200,
        ..Default::default()
    };
    assert_eq!(clamped.to_bytes(), [3, 1, 0, RT_STABILITY_MAX, 0]);
}

#[test]
fn kb_options_rejects_bogus_rt_level() {
    assert_eq!(
        KeyboardOptions::from_bytes(&[0, 0, 0, 100, 0]).rt_stability,
        0
    );
    assert_eq!(KeyboardOptions::from_bytes(&[]), KeyboardOptions::default());
}

#[test]
fn options_in_range_survive_the_wire() {
    for b in [[0, 0, 0, 0, 0], [3, 1, 1, 5, 1], [2, 0, 1, 4, 0]] {
        assert_eq!(KeyboardOptions::from_bytes(&b).to_bytes(), b);
    }
}

#[test]
fn travel_is_rendered_exactly() {
    assert_eq!(TravelDepth::from_raw(204).format_mm(Precision::Medium), "2.04");
    assert_eq!(TravelDepth::from_raw(21).format_mm(Precision::Coarse), "2.1");
    assert_eq!(TravelDepth::from_raw(401).format_mm(Precision::Fine), "2.005");
    assert_eq!(Precision::Fine.raw_to_um(401), 2005);
    assert_eq!(Precision::Fine.units_per_mm(), 200);
    assert_eq!(TravelDepth::from_raw(7).raw(), 7);
}

#[test]
fn firmware_versions_have_two_spellings() {
    let v = FirmwareVersion::new(0x0408);
    assert_eq!(v.format(), "v408");
    assert_eq!(v.format_dotted(), "4.0.8");
    assert_eq!(FirmwareVersion::from_bytes(&[0, 0, 0, 0, 0, 0, 0, 0x08, 0x04]).raw, 0x408);
    let t = PrecisionThresholds {
        medium: 0x300,
        fine: 0x500,
    };
    assert_eq!(v.precision(&t), Precision::Medium);
    assert_eq!(FirmwareVersion::precision_byte_str(1), "0.05mm");
    assert_eq!(FirmwareVersion::precision_byte_str(9), "unknown");
}

#[test]
fn feature_lists_need_their_marker() {
    let f = FeatureList::from_bytes(&[0xAA, 1, 7]);
    assert!(f.is_valid());
    assert_eq!(f.raw_features, vec![0xAA, 1, 7]);
    assert!(f.precision().is_some());
    let f = FeatureList::from_bytes(&[0, 1]);
    assert!(!f.is_valid());
    assert!(f.precision().is_none());
}

#[test]
fn durations_are_read_and_written() {
    assert_eq!(SleepTimeSettings::format_duration(0), "disabled");
    assert_eq!(SleepTimeSettings::format_duration(45), "45s");
    assert_eq!(SleepTimeSettings::format_duration(120), "2m");
    assert_eq!(SleepTimeSettings::format_duration(1685), "28m 5s");
    assert_eq!(SleepTimeSettings::format_duration(3600), "1h");
    assert_eq!(SleepTimeSettings::format_duration(5430), "1h 30m");
    assert_eq!(SleepTimeSettings::parse_duration(" 1H30m "), Some(5400));
    assert_eq!(SleepTimeSettings::parse_duration("28m 5s"), Some(1685));
    assert_eq!(SleepTimeSettings::parse_duration("OFF"), Some(0));
    assert_eq!(SleepTimeSettings::parse_duration("90"), Some(90));
    assert_eq!(SleepTimeSettings::parse_duration("99h"), Some(65535));
    assert_eq!(SleepTimeSettings::parse_duration("5x"), None);
    assert_eq!(SleepTimeSettings::parse_duration("99999999999s"), None);
    for secs in [1u16, 59, 60, 61, 3599] {
        let text = SleepTimeSettings::format_duration(secs);
        assert_eq!(SleepTimeSettings::parse_duration(&text), Some(secs));
    }
    let s = SleepTimeSettings::default();
    assert_eq!(s.format_idle(true), "2m");
    assert_eq!(s.format_deep(false), "28m");
}

#[test]
fn actions_survive_their_bytes() {
    let cases = [
        ([0u8, 0, 0, 0], KeyAction::Disabled),
        ([0, 0, 4, 0], KeyAction::Key(HidUsage::new(4))),
        (
            [9, 1, 7, 0],
            KeyAction::Macro {
                kind: 1,
                slot: MacroSlot { slot: 7 },
            },
        ),
        ([3, 0, 0xE9, 1], KeyAction::Consumer(0x1E9)),
        ([10, 1, 0, 0], KeyAction::Fn),
        ([77, 1, 2, 3], KeyAction::Other(77, 1, 2, 3)),
    ];
    for (bytes, action) in cases {
        assert_eq!(KeyAction::from_config_bytes(bytes), action);
        assert_eq!(action.to_config_bytes(), bytes);
    }
    // A lone usage moves to the second slot.
    let a = KeyAction::from_config_bytes([0, 0x29, 0, 0]);
    assert_eq!(a.to_config_bytes(), [0, 0, 0x29, 0]);
}

#[test]
fn words_are_little_endian() {
    assert_eq!(word(0x34, 0x12), 0x1234);
    assert_eq!((low_byte(0x1234), high_byte(0x1234)), (0x34, 0x12));
    assert_eq!(double_word(0x78, 0x56, 0x34, 0x12), 0x1234_5678);
}

#[test]
fn numbers_are_read_in_full() {
    assert_eq!(parse_number("42", 255), Some(42));
    assert_eq!(parse_number("+7", 255), Some(7));
    assert_eq!(parse_number("256", 255), None);
    assert_eq!(parse_number("", 255), None);
    assert_eq!(parse_number("4 ", 255), None);
}

#[test]
fn uniform_times_hold_on_every_link() {
    let s = SleepTimeSettings::uniform(120, 600);
    assert_eq!((s.idle_bt, s.idle_24g, s.deep_bt, s.deep_24g), (120, 120, 600, 600));
}
