use iot_driver::commands::{
    answer_is_complete, classify_answer, create_printer_config, effective_layer, forced_exit_notice,
    format_command_response, plan_profile, progress_line, remap, remap_notice, remap_outcome,
    reset_key, reset_notice, reset_outcome, restore_notice, swap, swap_notice, switch_failure,
    switch_notice, AnswerKind, CmdCtx, InterruptAction, InterruptState, ProfilePlan, Remap, Swap,
    UnknownKey,
};
use iot_driver::connect::{
    device_title, open_for_display, open_keyboard, resolve_polling_rate, DeviceFacts,
};
use iot_driver::depth::TransportType;
use iot_driver::device_db::{
    DeviceDatabase, DeviceDefinition, DeviceMatrix, PollingRateSupport,
};
use iot_driver::error::KeyboardError;
use iot_driver::exchange::{Reply, Step};
use iot_driver::key_action::KeyAction;
use iot_driver::keyboard::{DeviceInfo, KeyboardInterface};
use iot_driver::keymap::{load_key_rows, stages_due, KeyRow, KeyTables, LoadStage, Loading};
use iot_driver::protocol::{
    CommandTable, HidUsage, KeymatrixLayer, Layer, MagnetismTable, PollingRate, Profile, Request,
};
use iot_driver::registry::ProfileRegistry;
use iot_driver::settings::PrecisionThresholds;

fn commands() -> CommandTable {
    CommandTable {
        get_profile: 0x84,
        set_profile: 0x04,
        get_debounce: 0x86,
        set_debounce: 0x06,
        get_report: Some(0x83),
        set_report: Some(0x03),
        get_sleeptime: Some(0x91),
        set_sleeptime: Some(0x11),
        get_kboption: Some(0x89),
        set_kboption: Some(0x09),
        set_reset: 0x02,
        get_keymatrix: 0x8A,
        set_keymatrix: 0x0A,
        set_macro: 0x0B,
        get_usb_version: 0x8F,
        get_feature_list: 0xE6,
        get_ledparam: 0x87,
        set_ledparam: 0x07,
        get_sledparam: 0x88,
        set_sledparam: 0x08,
        get_userpic: 0x8C,
        set_userpic: 0x0C,
        get_fn: 0x90,
        get_macro: 0x8B,
        get_multi_magnetism: 0xE5,
        set_multi_magnetism: 0x65,
        set_magnetism_cal: 0x1C,
        set_magnetism_max_cal: 0x1E,
        led_stream: 0xE8,
        get_patch_info: 0xE7,
        dazzle_off: 8,
        magnetism: MagnetismTable {
            press_travel: 0,
            lift_travel: 1,
            rt_press: 2,
            rt_lift: 3,
            dks_travel: 4,
            modtap_time: 5,
            bottom_deadzone: 6,
            key_mode: 7,
            dks_trigger_modes_set: 8,
            snaptap_enable: 9,
            dks_modes: 10,
            top_deadzone: 0xFB,
            calibration: 0xFE,
            dks_mode: 2,
        },
        precision: PrecisionThresholds {
            medium: 0x300,
            fine: 0x500,
        },
    }
}

fn keyboard() -> KeyboardInterface {
    KeyboardInterface::new(
        DeviceInfo {
            vid: 0x3151,
            pid: 0x5030,
            product_name: None,
            wireless: false,
            dongle: false,
        },
        6,
        true,
        commands(),
        vec![
            PollingRate { code: 0, hz: 8000 },
            PollingRate { code: 3, hz: 1000 },
        ],
    )
}

fn tables() -> KeyTables {
    let mut names: Vec<String> = vec![String::from("?"); 126];
    for (i, n) in ["Esc", "`", "Tab", "Caps", "LShf", "LCtl"].iter().enumerate() {
        names[i] = n.to_string();
    }
    let codes = [("Esc", 0x29u8), ("Tab", 0x2B), ("Caps", 0x39)];
    KeyTables {
        names,
        codes: codes.iter().map(|(n, c)| (n.to_string(), *c)).collect(),
    }
}

fn lost(m: &str) -> KeyboardError {
    KeyboardError::Transport(m.to_string())
}

fn show(kind: AnswerKind, resp: &[u8]) -> Vec<String> {
    assert!(answer_is_complete(kind, resp));
    format_command_response(kind, resp, "NAME", "Mode", 0x0F)
}

#[test]
fn answers_are_told_apart() {
    let c = commands();
    assert_eq!(classify_answer(&c, 0x8F), AnswerKind::Version);
    assert_eq!(classify_answer(&c, 0x84), AnswerKind::Profile);
    assert_eq!(classify_answer(&c, 0x89), AnswerKind::Options);
    assert_eq!(classify_answer(&c, 0x01), AnswerKind::Other);
    assert!(!answer_is_complete(AnswerKind::Version, &[0x8F; 8]));
    assert!(!answer_is_complete(AnswerKind::Other, &[]));
}

#[test]
fn version_answers_show_the_device() {
    let lines = show(AnswerKind::Version, &[0x8F, 0x85, 0x0B, 0, 0, 0, 0, 0x9B, 1]);
    assert_eq!(
        lines,
        vec![
            "\nResponse (0x8f = NAME):",
            "  Device ID:  2949 (0x0B85)",
            "  Version:    411 (v4.11)",
        ]
    );
    let lines = show(AnswerKind::Version, &[0x8F, 0, 0, 0x12, 0xAB, 0, 0, 1, 0]);
    assert_eq!(lines[1], "  Device ID:  2870083584 (0xAB120000)");
    assert_eq!(lines[2], "  Version:    1 (v0.01)");
}

#[test]
fn setting_answers_show_their_values() {
    assert_eq!(show(AnswerKind::Profile, &[0x84, 2])[1], "  Profile:    2");
    assert_eq!(show(AnswerKind::Debounce, &[0x86, 5])[1], "  Debounce:   5 ms");
    assert_eq!(
        show(AnswerKind::Sleep, &[0x91, 0x78, 0])[1],
        "  Sleep:      120 seconds (2 min)"
    );
    assert_eq!(
        show(AnswerKind::Led, &[0x87, 3, 2, 1, 0x17, 255, 0, 16])[1..],
        [
            "  LED Mode:   3 (Mode)",
            "  Brightness: 2/4",
            "  Speed:      3/4",
            "  Color RGB:  (255, 0, 16) #FF0010",
            "  Dazzle:     ON (rainbow cycle)",
        ]
    );
    assert_eq!(show(AnswerKind::Led, &[0x87, 3, 2, 1, 8, 0, 0, 0]).len(), 5);
    assert_eq!(
        show(AnswerKind::Options, &[0x89, 1, 1, 1, 3, 0])[1..],
        [
            "  OS Mode:    macOS",
            "  Fn Layer:   1",
            "  Anti-touch: true",
            "  RTStab:     75 ms",
            "  WASD Swap:  false",
        ]
    );
    let mut features = vec![0xE6u8, 0xAA, 2];
    features.extend([0; 8]);
    assert_eq!(
        show(AnswerKind::Features, &features)[1..],
        [
            "  Features:   [aa, 02, 00, 00, 00, 00, 00, 00, 00, 00]",
            "  Precision:  0.01mm",
        ]
    );
    assert_eq!(show(AnswerKind::Other, &[1, 0xFE])[1], "  Raw data:   [01, fe]");
    assert_eq!(show(AnswerKind::Other, &[0; 64])[1].len(), "  Raw data:   ".len() + 64);
}

#[test]
fn a_prefix_takes_precedence_over_the_layer_option() {
    assert_eq!(effective_layer("Fn+Caps", Layer::Fn, Layer::Layer1), Layer::Fn);
    assert_eq!(effective_layer("Caps", Layer::Base, Layer::Layer1), Layer::Layer1);
    assert_eq!(effective_layer("L0+Caps", Layer::Base, Layer::Layer1), Layer::Base);
    // A plus that belongs to a key's name is no prefix.
    assert_eq!(effective_layer("Num+", Layer::Base, Layer::Layer1), Layer::Layer1);
    assert_eq!(effective_layer("Fn+Num+", Layer::Fn, Layer::Layer1), Layer::Fn);
}

#[test]
fn a_remap_writes_one_key() {
    let kb = keyboard();
    let action = KeyAction::Key(HidUsage::new(4));
    match remap(&kb, &tables(), "L1+caps", Ok(action), Layer::Base, &[]) {
        Remap::Write { target, step } => {
            assert_eq!(target.text(), "L1+Caps");
            assert_eq!(
                remap_notice(&target, "A", "Layer 1"),
                "Remapping L1+Caps (index 3) to A on Layer 1 layer..."
            );
            assert_eq!(remap_outcome(&target, "A", &Ok(())), "L1+Caps remapped to A");
            assert_eq!(
                remap_outcome(&target, "A", &Err(lost("gone"))),
                "Failed to remap key: gone"
            );
            assert_eq!(
                step,
                Step::Ask(Request::KeyMatrix {
                    profile: Profile::First,
                    key_index: 3,
                    layer: KeymatrixLayer::Layer1,
                    commit: true,
                    config: [0, 0, 4, 0],
                    wait_ms: Some(250),
                })
            );
        }
        _ => panic!("no write"),
    }
    let nope = Err(String::from("what"));
    assert!(matches!(
        remap(&kb, &tables(), "Nope", Ok(action), Layer::Base, &[]),
        Remap::UnknownKey
    ));
    assert!(matches!(
        remap(&kb, &tables(), "Caps", nope, Layer::Base, &[]),
        Remap::BadAction(_)
    ));
}

#[test]
fn a_reset_restores_the_factory_keycode() {
    let mut kb = keyboard();
    let (target, step) = reset_key(&kb, &tables(), "Caps", Layer::Base, &[]).unwrap();
    match step {
        Step::Ask(Request::KeyMatrix { config, .. }) => assert_eq!(config, [0, 0, 0x39, 0]),
        other => panic!("{other:?}"),
    }
    assert_eq!(reset_notice(&target, "Base"), "Resetting Caps (index 3) on Base...");
    assert_eq!(reset_outcome(&target, &Ok(())), "Caps reset to default");
    assert_eq!(
        reset_outcome(&target, &Err(lost("x"))),
        "Failed to reset key: x"
    );
    // The device's own default comes before the shared table.
    kb.set_matrix_defaults(vec![0, 0, 0, 0xE3]);
    let (_, step) = reset_key(&kb, &tables(), "Caps", Layer::Base, &[]).unwrap();
    match step {
        Step::Ask(Request::KeyMatrix { config, .. }) => assert_eq!(config, [0, 0, 0xE3, 0]),
        other => panic!("{other:?}"),
    }
    assert!(reset_key(&kb, &tables(), "Nope", Layer::Base, &[]).is_none());
}

#[test]
fn swapping_twice_gives_the_usages_back() {
    let kb = keyboard();
    let mut store = vec![0u8; 512];
    store[3 * 4 + 2] = 0x39;
    store[2] = 0x29;
    let mut run = |store: &mut Vec<u8>| {
        let mut replies: Vec<Reply> = Vec::new();
        loop {
            match swap(&kb, &tables(), "Caps", "Esc", Profile::First, &replies).unwrap() {
                Swap::Read(Request::Raw(f)) => {
                    let page = f.data[2] as usize;
                    replies.push(Ok(store[page * 64..page * 64 + 64].to_vec()));
                }
                Swap::Write(Request::KeyMatrix { key_index, config, .. }, _, _) => {
                    let at = key_index as usize * 4;
                    store[at..at + 4].copy_from_slice(&config);
                    replies.push(Ok(Vec::new()));
                }
                Swap::Done(a, b) => return (a, b),
                _ => panic!("failed"),
            }
        }
    };
    assert_eq!(run(&mut store), (HidUsage::new(0x39), HidUsage::new(0x29)));
    assert_eq!((store[14], store[2]), (0x29, 0x39));
    run(&mut store);
    assert_eq!((store[14], store[2]), (0x39, 0x29));
    assert_eq!(
        swap_notice("Caps", "CapsLock", "Esc", "Escape"),
        "Swapping Caps (CapsLock) <-> Esc (Escape)..."
    );
}

#[test]
fn a_swap_tells_what_failed() {
    let kb = keyboard();
    let run = |replies: &[Reply]| swap(&kb, &tables(), "Caps", "Esc", Profile::First, replies);
    assert!(matches!(
        swap(&kb, &tables(), "No", "Esc", Profile::First, &[]),
        Err(UnknownKey::First)
    ));
    assert!(matches!(
        swap(&kb, &tables(), "Esc", "No", Profile::First, &[]),
        Err(UnknownKey::Second)
    ));
    assert!(matches!(run(&[Err(lost("x"))]), Ok(Swap::ReadFailed(_))));
    let mut replies: Vec<Reply> = (0..8).map(|_| Ok(vec![0; 64])).collect();
    replies.push(Err(lost("x")));
    assert!(matches!(run(&replies), Ok(Swap::WriteFailed(_))));
}

#[test]
fn a_profile_is_switched_only_if_it_is_another() {
    assert_eq!(plan_profile(Profile::Second, Some(Profile::Second)), ProfilePlan::Run);
    assert_eq!(plan_profile(Profile::Second, None), ProfilePlan::Run);
    assert_eq!(
        plan_profile(Profile::Second, Some(Profile::First)),
        ProfilePlan::Switch {
            from: Profile::First,
            to: Profile::Second,
        }
    );
    assert!(switch_notice(Profile::First, Profile::Third).ends_with("Switching 1 -> 3 …"));
    assert_eq!(
        switch_failure(Profile::Third, &lost("busy")),
        "Failed to switch to profile 3: busy"
    );
    assert_eq!(restore_notice(Profile::First, &Ok(())), "Restored profile 1.");
    assert!(
        restore_notice(Profile::First, &Err(lost("x")))
            .starts_with("WARNING: could not restore profile 1: x\n")
    );
    assert!(forced_exit_notice(Profile::Second).ends_with("set-profile 1`."));
}

#[test]
fn the_second_interrupt_names_the_profile() {
    let mut state = InterruptState::new();
    state.switched_from(Profile::Third);
    assert_eq!(state.on_interrupt(), InterruptAction::Finish);
    assert!(!state.running);
    assert_eq!(state.on_interrupt(), InterruptAction::Exit(Some(Profile::Third)));
    assert_eq!(state.on_interrupt(), InterruptAction::Exit(None));
    let mut state = InterruptState::new();
    state.switched_from(Profile::Third);
    state.restored();
    state.on_interrupt();
    assert_eq!(state.on_interrupt(), InterruptAction::Exit(None));
}

#[test]
fn recording_implies_printing() {
    assert!(create_printer_config(false, true, true, None, None).is_none());
    let c = create_printer_config(false, true, false, None, Some(String::from("f"))).unwrap();
    assert!(c.hex && !c.all_hid && c.filter.is_none());
    assert!(create_printer_config(true, false, false, None, None).is_some());
}

#[test]
fn the_progress_bar_fills_up() {
    let line = progress_line(&LoadStage::numbered(0));
    assert_eq!(
        line,
        "\r\x1b[2Kreading keymatrix layers (1/7) [##··················]"
    );
    let line = progress_line(&LoadStage::numbered(6));
    assert_eq!(
        line,
        "\r\x1b[2Kreading SnapTap bindings (7/7) [####################]"
    );
}

fn registry() -> ProfileRegistry {
    let definition = DeviceDefinition {
        id: 9,
        vid: 0x3151,
        pid: 0x5030,
        name: String::from("board"),
        display_name: String::from("Board"),
        company: String::from("Maker"),
        key_count: Some(6),
        magnetism: true,
        polling_rates: vec![1000, 500],
        polling_rate: PollingRateSupport::NotOverBluetooth,
    };
    let matrix = DeviceMatrix {
        vid: 0x3151,
        pid: 0x5030,
        device_id: 9,
        key_names: vec![String::from("Esc"), String::from("1")],
        matrix: vec![0x29, 0x1E],
        non_analog_positions: Some(vec![1]),
    };
    ProfileRegistry::with_builtins(
        &Vec::new(),
        Ok(DeviceDatabase {
            devices: vec![definition],
            matrices: vec![matrix],
            version: 1,
        }),
    )
}

#[test]
fn a_keyboard_is_set_up_from_the_tables() {
    let registry = registry();
    let ctx = CmdCtx::new(None, Some(String::from("usb")), None);
    assert_eq!(ctx.device_selector(), Some("usb"));
    let kb = open_keyboard(&ctx, keyboard(), &registry, Some(9), Ok(Profile::Fourth))
        .unwrap_or_else(|e| panic!("{e}"));
    assert_eq!(kb.polling_rates, vec![1000, 500]);
    assert_eq!(kb.matrix_key_names, vec!["Esc", "1"]);
    assert_eq!(kb.matrix_defaults, vec![0x29, 0x1E]);
    assert_eq!(kb.non_analog_positions, vec![1]);
    assert_eq!(kb.active_profile(), Profile::Fourth);
    match open_keyboard(&ctx, keyboard(), &registry, Some(9), Err(lost("timeout"))) {
        Err(m) => assert_eq!(
            m,
            "could not determine the active profile (timeout); pass --profile to choose one"
        ),
        Ok(_) => panic!("no profile is known"),
    }
    let forced = CmdCtx::new(None, None, Some(Profile::Second));
    let kb = open_keyboard(&forced, keyboard(), &registry, None, Err(lost("timeout")))
        .unwrap_or_else(|e| panic!("{e}"));
    assert_eq!(kb.active_profile(), Profile::Second);
    assert!(kb.polling_rates.is_empty());
}

#[test]
fn a_connected_device_is_described() {
    let registry = registry();
    let facts = DeviceFacts {
        key_count: 6,
        display_key_count: 2,
        has_magnetism: true,
        has_sidelight: false,
        display_name: None,
    };
    let (kb, device) = open_for_display(
        keyboard(),
        &registry,
        Some(9),
        TransportType::Bluetooth,
        &facts,
        Err(lost("x")),
    );
    assert_eq!(kb.active_profile(), Profile::First);
    assert_eq!(device.name, "Device 3151:5030");
    assert_eq!(device.transport_name, "bt");
    assert_eq!(device.matrix_key_names, vec!["Esc", "1"]);
    assert_eq!(device.polling_rate_support, PollingRateSupport::Unsupported);
    assert_eq!(device.polling_rates, vec![1000, 500]);
    let (support, rates) =
        resolve_polling_rate(&registry, None, 0x3151, 0x5030, TransportType::HidWired);
    assert_eq!(support, PollingRateSupport::NotOverBluetooth);
    assert_eq!(rates, vec![1000, 500]);
    let (support, rates) = resolve_polling_rate(&registry, None, 1, 1, TransportType::HidWired);
    assert_eq!(support, PollingRateSupport::Unsupported);
    assert!(rates.is_empty());
    let name = Some(String::from("Own"));
    assert_eq!(device_title(&None, &name, 1, 2), "Own");
}

#[test]
fn rows_are_loaded_in_seven_stages() {
    let mut kb = keyboard();
    kb.set_matrix_key_names(
        ["Esc", "1", "", "Caps", "", ""].iter().map(|s| s.to_string()).collect(),
    );
    let (rows, told) = load_all(&kb, |_| Ok(vec![0; 64]));
    let rows = rows.unwrap_or_else(|e| panic!("{e:?}"));
    assert!(rows.iter().any(|r| r.position == "Caps"));
    let labels: Vec<&str> = told.iter().map(|s| s.label).collect();
    assert_eq!(
        labels,
        vec![
            "keymatrix layers",
            "Fn layer",
            "trigger settings",
            "DKS travel",
            "DKS modes",
            "mod-tap times",
            "SnapTap bindings",
        ]
    );
    assert!(told.iter().enumerate().all(|(i, s)| s.done == i && s.total == 7));
}

/// Load the rows, and collect the stages that are told.
fn load_all(
    kb: &KeyboardInterface,
    mut answer: impl FnMut(usize) -> Reply,
) -> (Result<Vec<KeyRow>, KeyboardError>, Vec<LoadStage>) {
    let mut replies: Vec<Reply> = Vec::new();
    let mut told: Vec<LoadStage> = Vec::new();
    loop {
        match load_key_rows(kb, &tables(), 0, &replies) {
            Loading::Ask { stage, .. } => {
                told.extend(stages_due(told.len(), stage));
                replies.push(answer(stage));
            }
            Loading::Done { stage, result } => {
                told.extend(stages_due(told.len(), stage));
                return (result, told);
            }
        }
    }
}

#[test]
fn each_stage_is_told_once_on_any_keyboard() {
    // Without keys most tables have no pages, but their stages are told all the same.
    let mut kb = keyboard();
    kb.key_count = 0;
    let (rows, told) = load_all(&kb, |_| Ok(vec![0; 64]));
    assert!(rows.is_ok());
    let numbers: Vec<usize> = told.iter().map(|s| s.done).collect();
    assert_eq!(numbers, vec![0, 1, 2, 3, 4, 5, 6]);
    // A table that may be missing does not fail the load; one that is needed does.
    let kb = keyboard();
    let lose = |at: usize| {
        move |stage: usize| {
            if stage == at {
                Err(lost("gone"))
            } else {
                Ok(vec![0; 64])
            }
        }
    };
    for at in [1, 3, 4, 5, 6] {
        let (rows, told) = load_all(&kb, lose(at));
        assert!(rows.is_ok());
        assert_eq!(told.len(), 7);
    }
    let (rows, told) = load_all(&kb, lose(2));
    assert_eq!(rows.err(), Some(lost("gone")));
    assert_eq!(told.len(), 3);
    assert_eq!(load_all(&kb, lose(0)).1.len(), 1);
}
