use iot_driver::key_action::KeyAction;
use iot_driver::key_ref::KeyRef;
use iot_driver::keymap::{
    build_key_rows, default_keycode, is_user_remap, KeyTables, RawKeyRows,
};
use iot_driver::magnetism::TriggerSettings;
use iot_driver::protocol::{HidUsage, Layer, MatrixPos};

/// The tables of the positions that these tests name.
fn tables() -> KeyTables {
    let mut names: Vec<String> = vec![String::from("?"); 126];
    for (i, n) in ["Esc", "`", "Tab", "Caps", "LShf", "LCtl"].iter().enumerate() {
        names[i] = n.to_string();
    }
    names[17] = String::from("LAlt");
    names[42] = String::from("J");
    let codes = [
        ("Esc", 0x29u8),
        ("`", 0x35),
        ("Tab", 0x2B),
        ("Caps", 0x39),
        ("LShf", 0xE1),
        ("LCtl", 0xE0),
        ("LAlt", 0xE2),
        ("J", 0x0D),
    ];
    KeyTables {
        names,
        codes: codes.iter().map(|(n, c)| (n.to_string(), *c)).collect(),
    }
}

fn parsed(s: &str) -> KeyRef {
    KeyRef::parse(&tables(), s).unwrap()
}

#[test]
fn layer_parse_variants() {
    assert_eq!(Layer::parse("0").unwrap(), Layer::Base);
    assert_eq!(Layer::parse("L0").unwrap(), Layer::Base);
    assert_eq!(Layer::parse("base").unwrap(), Layer::Base);
    assert_eq!(Layer::parse("1").unwrap(), Layer::Layer1);
    assert_eq!(Layer::parse("l1").unwrap(), Layer::Layer1);
    assert_eq!(Layer::parse("2").unwrap(), Layer::Fn);
    assert_eq!(Layer::parse("fn").unwrap(), Layer::Fn);
    assert_eq!(Layer::parse("FN").unwrap(), Layer::Fn);
}

#[test]
fn layer_display() {
    assert_eq!(Layer::Base.as_str(), "L0");
    assert_eq!(Layer::Layer1.as_str(), "L1");
    assert_eq!(Layer::Fn.as_str(), "Fn");
}

#[test]
fn layer_rejects_other_names() {
    assert!(Layer::parse("3").is_none());
    assert!(Layer::parse("").is_none());
    assert!(Layer::parse("fn ").is_none());
}

#[test]
fn keyref_parse_bare_name() {
    let kr = parsed("Caps");
    assert_eq!(kr.index, MatrixPos::new(3));
    assert_eq!(kr.layer, Layer::Base);
    assert_eq!(kr.position, "Caps");
}

#[test]
fn keyref_parse_fn_prefix() {
    let kr = parsed("Fn+Caps");
    assert_eq!(kr.index, MatrixPos::new(3));
    assert_eq!(kr.layer, Layer::Fn);
}

#[test]
fn keyref_parse_l1_prefix() {
    let kr = parsed("L1+Caps");
    assert_eq!(kr.index, MatrixPos::new(3));
    assert_eq!(kr.layer, Layer::Layer1);
}

#[test]
fn keyref_parse_numeric() {
    let kr = parsed("42");
    assert_eq!(kr.index, MatrixPos::new(42));
    assert_eq!(kr.layer, Layer::Base);
}

#[test]
fn keyref_parse_fn_numeric() {
    let kr = parsed("Fn+42");
    assert_eq!(kr.index, MatrixPos::new(42));
    assert_eq!(kr.layer, Layer::Fn);
}

#[test]
fn keyref_parse_case_insensitive() {
    let kr = parsed("fn+caps");
    assert_eq!(kr.index, MatrixPos::new(3));
    assert_eq!(kr.layer, Layer::Fn);
}

#[test]
fn keyref_display_base() {
    let kr = KeyRef::new(&tables(), MatrixPos::new(3), Layer::Base);
    assert_eq!(kr.text(), "Caps");
}

#[test]
fn keyref_display_fn() {
    let kr = KeyRef::new(&tables(), MatrixPos::new(3), Layer::Fn);
    assert_eq!(kr.text(), "Fn+Caps");
}

#[test]
fn keyref_display_l1() {
    let kr = KeyRef::new(&tables(), MatrixPos::new(3), Layer::Layer1);
    assert_eq!(kr.text(), "L1+Caps");
}

#[test]
fn keyref_rejects_what_it_cannot_place() {
    assert!(KeyRef::parse(&tables(), "NoSuchKey").is_none());
    assert!(KeyRef::parse(&tables(), "Fn+NoSuchKey").is_none());
    assert!(KeyRef::parse(&tables(), "L7+Caps").is_none());
}

/// Six positions of the matrix (Esc ` Tab Caps LShf LCtl), with the default keycodes and
/// names of the tables.
fn make_raw(
    key_count: usize,
    base0: &[[u8; 4]],
    base1: &[[u8; 4]],
    fn_layer: &[[u8; 4]],
) -> RawKeyRows {
    let to_vec = |entries: &[[u8; 4]]| -> Vec<u8> {
        let mut v = vec![0u8; key_count * 4];
        for (i, e) in entries.iter().enumerate() {
            if i < key_count {
                v[i * 4..i * 4 + 4].copy_from_slice(e);
            }
        }
        v
    };
    let tables = tables();
    RawKeyRows {
        key_count,
        names: (0..key_count)
            .map(|i| tables.key_name(MatrixPos::new(i as u8)).to_string())
            .collect(),
        defaults: (0..key_count)
            .map(|i| default_keycode(&tables, MatrixPos::new(i as u8)))
            .collect(),
        layers: [
            to_vec(base0),
            to_vec(base1),
            vec![0; key_count * 4],
            vec![0; key_count * 4],
        ],
        fn_layer: if fn_layer.is_empty() {
            None
        } else {
            Some(to_vec(fn_layer))
        },
        triggers: TriggerSettings {
            key_count: 0,
            press_travel: Vec::new(),
            lift_travel: Vec::new(),
            rt_press: Vec::new(),
            rt_lift: Vec::new(),
            key_modes: Vec::new(),
            bottom_deadzone: Vec::new(),
            top_deadzone: Vec::new(),
        },
        dks_travels: Vec::new(),
        dks_blob: Vec::new(),
        modtap: Vec::new(),
        snaptap: Vec::new(),
    }
}

const DEFAULTS: [[u8; 4]; 6] = [
    [0, 0, 0x29, 0], // Esc
    [0, 0, 0x35, 0], // `
    [0, 0, 0x2B, 0], // Tab
    [0, 0, 0x39, 0], // Caps
    [0, 0, 0xE1, 0], // LShf
    [0, 0, 0xE0, 0], // LCtl
];

#[test]
fn build_key_rows_flags_only_the_remapped_key() {
    let mut base0 = DEFAULTS;
    base0[3] = [0, 0, 0x04, 0]; // Caps -> A
    let empty = [[0u8; 4]; 6];
    let rows = build_key_rows(&make_raw(6, &base0, &empty, &[]));

    let remapped: Vec<_> = rows.iter().filter(|r| r.output_remapped[0]).collect();
    assert_eq!(remapped.len(), 1);
    assert_eq!(remapped[0].index, MatrixPos::new(3));
    assert_eq!(remapped[0].outputs[0], KeyAction::Key(HidUsage::new(0x04)));
    assert!(rows.iter().all(|r| !r.output_remapped[1]));
}

#[test]
fn overlay_layers_are_set_when_non_empty() {
    let mut l1 = [[0u8; 4]; 6];
    l1[3] = DEFAULTS[3]; // Layer1 bound to the same key the base emits
    let rows = build_key_rows(&make_raw(6, &DEFAULTS, &l1, &[]));

    let caps = rows.iter().find(|r| r.index == MatrixPos::new(3)).unwrap();
    assert!(!caps.output_remapped[0], "base matches its default");
    assert!(
        caps.output_remapped[1],
        "an explicit overlay entry is a binding"
    );
}

#[test]
fn build_key_rows_picks_up_fn_bindings() {
    let mut fn_layer = [[0u8; 4]; 6];
    fn_layer[3] = [3, 0, 0xE9, 0]; // Fn+Caps -> Volume Up
    let rows = build_key_rows(&make_raw(6, &DEFAULTS, &DEFAULTS, &fn_layer));

    let caps = rows.iter().find(|r| r.index == MatrixPos::new(3)).unwrap();
    assert_eq!(caps.fn_action, Some(KeyAction::Consumer(0x00E9)));
    assert!(caps.is_customized());
    // Empty Fn slots stay unbound rather than reading as a binding.
    assert!(
        rows.iter()
            .filter(|r| r.index != MatrixPos::new(3))
            .all(|r| r.fn_action.is_none())
    );
}

#[test]
fn build_key_rows_keeps_device_bytes() {
    let mut base0 = DEFAULTS;
    base0[3] = [0, 0x29, 0, 0]; // usage in slot 1
    let rows = build_key_rows(&make_raw(6, &base0, &DEFAULTS, &[]));
    let caps = rows.iter().find(|r| r.index == MatrixPos::new(3)).unwrap();
    assert_eq!(caps.raw[0], [0, 0x29, 0, 0]);
    assert_eq!(caps.outputs[0].to_config_bytes(), [0, 0, 0x29, 0]);
}

#[test]
fn device_defaults_decide_what_counts_as_customised() {
    let tables = tables();
    assert_eq!(
        default_keycode(&tables, MatrixPos::new(17)),
        HidUsage::new(0xE2),
        "generic table says LAlt"
    );

    // Holding the device's real default is not a customisation...
    assert!(!is_user_remap(&[0, 0, 0xE3, 0], HidUsage::new(0xE3)));
    // ...but judging it against the generic table's default says it is.
    assert!(is_user_remap(
        &[0, 0, 0xE3, 0],
        default_keycode(&tables, MatrixPos::new(17))
    ));
}

#[test]
fn remap_detection_disabled() {
    assert!(!is_user_remap(&[0, 0, 0, 0], HidUsage::new(0x29)));
}

#[test]
fn remap_detection_identity() {
    assert!(!is_user_remap(&[0, 0, 0x29, 0], HidUsage::new(0x29)));
}

#[test]
fn remap_detection_changed() {
    assert!(is_user_remap(&[0, 0, 0x04, 0], HidUsage::new(0x39)));
}

#[test]
fn remap_detection_macro() {
    assert!(is_user_remap(&[9, 0, 0, 0], HidUsage::new(0xE0)));
}

#[test]
fn remap_detection_fn_key() {
    assert!(!is_user_remap(&[10, 1, 0, 0], HidUsage::new(0xE4)));
}

#[test]
fn remap_detection_default_written_to_slot_one() {
    assert!(!is_user_remap(&[0, 0x29, 0, 0], HidUsage::new(0x29)));
}

#[test]
fn remap_detection_chord() {
    assert!(is_user_remap(&[0, 0xE0, 0x06, 0], HidUsage::new(0x06)));
}

#[test]
fn a_position_without_a_key_has_no_row() {
    let mut raw = make_raw(1, &[[0; 4]], &[[0; 4]], &[]);
    raw.names = vec![String::new()];
    assert!(build_key_rows(&raw).is_empty());
    raw.names = vec![String::from("#0")];
    assert!(build_key_rows(&raw).is_empty());
    // What is stored there counts, named or not.
    raw.names = vec![String::new()];
    raw.layers[1] = vec![0, 0, 4, 0];
    assert_eq!(build_key_rows(&raw).len(), 1);
}
