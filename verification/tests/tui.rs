use iot_driver::connect::ConnectedDevice;
use iot_driver::device_db::PollingRateSupport;
use iot_driver::key_action::KeyAction;
use iot_driver::keymap::{KeyRow, LoadStage};
use iot_driver::led::{LedMode, LedParams, RgbColor};
use iot_driver::magnetism::KeyMode;
use iot_driver::protocol::{MatrixPos, Profile};
use iot_driver::select::DeviceLabel;
use iot_driver::settings::{
    BatteryInfo, FirmwareVersion, KeyboardOptions, Precision, SleepTimeSettings,
};
use iot_driver::tui_flow::{battery_is_due, coalesce, tick_ms, RefreshLoads, TabLoads};
use iot_driver::tui_input::{
    output_target, selection_notice, wheel, Action, Area, CalField, Focus, KeyCode, KeyPress,
    ModalAction, OutputTarget, PickerKind, SleepField,
};
use iot_driver::tui_state::{
    App, AsyncResult, BatterySource, DepthViewMode, FirmwareCheckResult, GenerationalResult,
    HexColorTarget, InfoTag, KeyMappingView, LoadState, ModalFocus, PickerItem,
};
use iot_driver::tui_view::{
    battery_text, picker_area, picker_line, profile_text, status_text, tab_hint, title_text,
};

fn app() -> App {
    App::new(None, false, String::from("/effects.toml"))
}

fn with_notify() -> App {
    App::new(None, true, String::from("/effects.toml"))
}

fn key(code: KeyCode) -> KeyPress {
    KeyPress {
        code,
        shift: false,
        control: false,
        alt: false,
    }
}

fn press(app: &mut App, code: KeyCode) -> Action {
    app.handle_key(key(code), 30, Some(5))
}

fn typed(app: &mut App, c: char) -> Action {
    press(app, KeyCode::Char(c))
}

fn device(name: &str, wireless: bool) -> ConnectedDevice {
    ConnectedDevice {
        name: name.to_string(),
        transport_name: "usb",
        key_count: 90,
        display_key_count: 83,
        has_sidelight: true,
        has_magnetism: true,
        matrix_size: 90,
        matrix_key_names: Vec::new(),
        is_wireless: wireless,
        polling_rate_support: PollingRateSupport::Supported,
        polling_rates: vec![8000],
    }
}

fn row(pos: u8) -> KeyRow {
    KeyRow {
        index: MatrixPos::new(pos),
        position: String::from("K"),
        mode: KeyMode { code: 0 },
        rapid_trigger: false,
        actuation: 0,
        release: 0,
        rt_press: 0,
        rt_lift: 0,
        bottom_dz: 0,
        top_dz: 0,
        outputs: [KeyAction::Disabled; 4],
        output_remapped: [false; 4],
        fn_action: None,
        raw: [[0; 4]; 4],
        fn_raw: None,
        dks_travel: 0,
        dks_modes: [0; 4],
        modtap_ms: 0,
        snaptap_partner: None,
    }
}

fn battery(level: u8, idle: bool) -> BatteryInfo {
    BatteryInfo {
        level,
        online: true,
        charging: false,
        idle,
    }
}

#[test]
fn results_fill_the_device_tab() {
    let mut a = app();
    a.process_async_result(AsyncResult::DeviceIdAndVersion(Ok((
        2949,
        FirmwareVersion::new(0x407),
    ))));
    a.process_async_result(AsyncResult::Profile(Ok(Profile::Third)));
    a.process_async_result(AsyncResult::Debounce(Err(String::from("x"))));
    a.process_async_result(AsyncResult::PollingRate(Ok(8000)));
    a.process_async_result(AsyncResult::Precision(Ok(Precision::Fine)));
    let led = LedParams {
        mode: LedMode::from_u8(9).unwrap(),
        brightness: 3,
        speed: 1,
        color: RgbColor::new(1, 2, 3),
        direction: 7,
    };
    a.process_async_result(AsyncResult::LedParams(Ok(led)));
    assert_eq!((a.info.device_id, a.info.version), (2949, 0x407));
    assert_eq!(a.info.profile, Profile::Third);
    assert_eq!(a.loading.debounce, LoadState::Error);
    assert_eq!(a.loading.profile, LoadState::Loaded);
    assert_eq!(a.info.polling_rate, 8000);
    assert_eq!(a.precision, Precision::Fine);
    assert_eq!((a.info.led.mode, a.info.led.r, a.info.led.dazzle), (9, 1, true));
    // A dongle without a patch is no failure.
    a.process_async_result(AsyncResult::DonglePatchInfo(Err(String::from("none"))));
    assert_eq!(a.loading.dongle_patch_info, LoadState::Loaded);
    a.process_async_result(AsyncResult::PatchInfo(Err(String::from("none"))));
    assert_eq!(a.loading.patch_info, LoadState::Error);
    assert_eq!(a.status_msg, "");
}

#[test]
fn sleep_times_and_options_meet_in_any_order() {
    let options = KeyboardOptions::from_bytes(&[1, 1, 0, 3, 1]);
    let sleep = SleepTimeSettings::new(60, 61, 62, 63);
    let mut a = app();
    a.process_async_result(AsyncResult::Options(Ok(options)));
    assert_eq!(a.options.unwrap().deep_bt, 1680);
    a.process_async_result(AsyncResult::SleepTime(Ok(sleep)));
    let mut b = app();
    b.process_async_result(AsyncResult::SleepTime(Ok(sleep)));
    b.process_async_result(AsyncResult::Options(Ok(options)));
    assert_eq!(a.options, b.options);
    assert_eq!(a.options.unwrap().idle_24g, 61);
    assert_eq!(b.status_msg, "Keyboard options loaded");
    assert_eq!(b.info.sleep_seconds, 60);
}

#[test]
fn the_status_line_tells_results() {
    let mut a = app();
    let told = |a: &mut App, r: AsyncResult| {
        a.process_async_result(r);
        a.status_msg.clone()
    };
    let check = FirmwareCheckResult {
        message: String::from("up to date"),
    };
    assert_eq!(told(&mut a, AsyncResult::FirmwareCheck(check)), "up to date");
    assert_eq!(
        told(&mut a, AsyncResult::Triggers(Err(String::new()))),
        "Failed to load trigger settings"
    );
    assert_eq!(
        told(&mut a, AsyncResult::Options(Err(String::new()))),
        "Failed to load options"
    );
    assert_eq!(
        told(&mut a, AsyncResult::SetComplete(String::from("Debounce"), Ok(()))),
        "Debounce updated"
    );
    let failed = AsyncResult::SetComplete(String::from("Debounce"), Err(String::from("busy")));
    assert_eq!(told(&mut a, failed), "Failed to set Debounce: busy");
    assert_eq!(
        told(&mut a, AsyncResult::Battery(Err(String::from("x")))),
        "Battery read failed: x"
    );
    assert_eq!(
        told(&mut a, AsyncResult::KeyRows(Err(String::from("x")))),
        "Failed to load key mapping: x"
    );
    assert_eq!(
        told(&mut a, AsyncResult::NotifyEffectsLoaded(Ok(vec![String::from("a")]))),
        "Loaded 1 effects from /effects.toml"
    );
    assert_eq!(
        told(&mut a, AsyncResult::NotifyEffectsLoaded(Err(String::from("x")))),
        "Failed to load effects: x"
    );
    assert_eq!(
        told(&mut a, AsyncResult::NotifyDaemonStopped(Ok(()))),
        "Notify daemon stopped"
    );
    assert_eq!(
        told(&mut a, AsyncResult::NotifyDaemonStopped(Err(String::from("x")))),
        "Daemon error: x"
    );
    assert_eq!(a.notify.daemon_error.as_deref(), Some("x"));
}

#[test]
fn the_selection_stays_on_a_row() {
    let mut a = app();
    a.key_mapping.selected = 9;
    a.process_async_result(AsyncResult::KeyRowsStage(LoadStage::numbered(2)));
    assert!(a.key_mapping.progress.is_some());
    a.process_async_result(AsyncResult::KeyRows(Ok(vec![row(0), row(1)])));
    assert_eq!(a.key_mapping.selected, 1);
    assert!(a.key_mapping.progress.is_none());
    assert_eq!(a.status_msg, "2 keys loaded");
    a.process_async_result(AsyncResult::KeyRows(Ok(Vec::new())));
    assert_eq!(a.key_mapping.selected, 0);
}

#[test]
fn results_for_an_earlier_device_are_discarded() {
    let mut a = app();
    let sent = a.device_generation;
    a.begin_connection();
    a.receive(GenerationalResult {
        generation: sent,
        result: AsyncResult::Debounce(Ok(9)),
    });
    assert_eq!(a.info.debounce, 0);
    a.receive(GenerationalResult {
        generation: sent + 1,
        result: AsyncResult::Debounce(Ok(9)),
    });
    assert_eq!(a.info.debounce, 9);
}

#[test]
fn a_connection_is_announced() {
    let mut a = app();
    a.begin_connection();
    a.active_keys = vec![1, 2];
    a.selected_keys = vec![3];
    a.attach(device("Board", true), Some(String::from("/sys/power")));
    assert!(a.connected);
    assert!(a.active_keys.is_empty() && a.selected_keys.is_empty());
    assert_eq!(a.depth_keys, 90);
    assert_eq!(a.battery_source, Some(BatterySource::Kernel(String::from("/sys/power"))));
    assert!(a.announce_connection());
    assert_eq!(a.status_msg, "Connected to Board");
    a.battery = Some(battery(50, true));
    assert!(!a.announce_connection());
    assert_eq!(a.status_msg, "Keyboard sleeping - press a key to wake before querying");
    a.attach(device("Wired", false), None);
    assert_eq!(a.battery_source, Some(BatterySource::Kernel(String::from("/sys/power"))));
    a.connection_failed(String::from("No supported device found"));
    assert_eq!(a.status_msg, "No supported device found");
}

fn item(index: usize, responsive: bool) -> PickerItem {
    PickerItem {
        label: DeviceLabel {
            index,
            model_name: String::from("MonsGeek M1 V5 HE"),
            transport_name: String::from("usb"),
            hid_path: String::from("/dev/hidraw1"),
            device_id: Some(2949),
            version: Some(407),
        },
        responsive,
    }
}

#[test]
fn a_picked_device_replaces_the_one_before() {
    let mut a = app();
    assert_eq!(a.pick(), None);
    assert_eq!(a.device_generation, 1);
    a.scanned(Ok(vec![item(0, true), item(12, true)]));
    a.picker.open = true;
    a.picker.selected = 7;
    assert_eq!(a.pick(), Some(1));
    a.info.debounce = 5;
    a.loading.options = LoadState::Loaded;
    a.attach_picked(1, device("Other", false), None);
    assert_eq!(a.device_selector.as_deref(), Some("12"));
    assert!(!a.picker.open);
    assert_eq!(a.info.debounce, 0);
    assert_eq!(a.loading.options, LoadState::NotLoaded);
    assert_eq!(a.status_msg, "Connected to Other");
    a.picker.open = true;
    a.picked_failed("busy");
    assert!(!a.picker.open);
    assert_eq!(a.status_msg, "Failed to open device: busy");
    a.scanned(Err(String::from("x")));
    assert!(a.picker.items.is_empty());
    assert_eq!(a.status_msg, "Device scan failed: x");
}

#[test]
fn tabs_load_what_they_lack() {
    let mut a = app();
    let loads = a.switch_tab(2, Some(40));
    assert_eq!(
        loads,
        TabLoads {
            key_mapping: true,
            triggers: true,
            effects: false,
        }
    );
    assert_eq!(a.loading.key_mapping, LoadState::Loading);
    assert_eq!(a.key_mapping.pages_start, 40);
    let again = a.auto_load_tab(Some(50));
    assert!(!again.key_mapping && !again.triggers);
    let mut a = app();
    assert!(!a.switch_tab(2, None).key_mapping);
    assert_eq!(a.loading.key_mapping, LoadState::NotLoaded);
    let mut n = with_notify();
    assert!(n.switch_tab(3, None).effects);
    assert!(!app().auto_load_tab(None).effects);
}

#[test]
fn a_refresh_spares_a_sleeping_keyboard() {
    let mut a = app();
    a.attach(device("B", true), None);
    a.tab = 2;
    a.battery = Some(battery(9, true));
    let none = RefreshLoads {
        device_info: false,
        options: false,
        key_mapping: false,
        triggers: false,
    };
    assert_eq!(a.refresh(Some(1)), none);
    a.battery = Some(battery(9, false));
    let all = a.refresh(Some(1));
    assert!(all.device_info && all.options && all.key_mapping && all.triggers);
    assert_eq!(a.status_msg, "Refreshing...");
    assert!(a.battery_refreshed(true));
    assert_eq!(a.status_msg, "Keyboard awake - loading settings...");
    assert!(!a.battery_refreshed(false));
    a.battery = Some(battery(9, true));
    assert!(!a.battery_refreshed(true));
    assert!(battery_is_due(true, 30));
    assert!(!battery_is_due(true, 29));
    assert!(!battery_is_due(false, 99));
}

#[test]
fn ticks_are_fast_while_something_moves() {
    assert_eq!(tick_ms(0, true, false, false), 16);
    assert_eq!(tick_ms(1, true, true, false), 100);
    assert_eq!(tick_ms(3, false, false, true), 16);
    assert_eq!(tick_ms(3, false, false, false), 100);
}

#[test]
fn the_mode_before_a_reactive_one_comes_back() {
    let mut a = app();
    assert_eq!(a.leave(), None);
    a.reactive_prev_mode = Some(6);
    assert_eq!(a.leave(), Some(6));
    assert_eq!(a.info.led.mode, 6);
    assert_eq!(a.leave(), None);
}

#[test]
fn only_the_latest_depth_of_a_key_counts() {
    let events = [Some(4), None, Some(5), Some(4), None, Some(4)];
    let (others, depths) = coalesce(&events);
    assert_eq!(others, vec![1, 4]);
    assert_eq!(depths, vec![2, 5]);
    assert_eq!(coalesce(&[]), (Vec::new(), Vec::new()));
}

#[test]
fn popups_take_the_keys_in_order() {
    let mut a = app();
    a.key_mapping.filter_open = true;
    a.modal = Some(ModalFocus {
        mode_picker: false,
        key_picker: true,
        output_picker: true,
        dks_action_picker: false,
    });
    a.hex.editing = true;
    a.show_help = true;
    a.picker.open = true;
    assert_eq!(a.focus(), Focus::DevicePicker);
    assert_eq!(typed(&mut a, 'q'), Action::Nothing);
    typed(&mut a, 'd');
    assert_eq!(a.focus(), Focus::Help);
    press(&mut a, KeyCode::F(1));
    assert_eq!(a.focus(), Focus::Hex);
    assert_eq!(press(&mut a, KeyCode::Esc), Action::CancelHexInput);
    a.hex.editing = false;
    assert_eq!(a.focus(), Focus::Picker(PickerKind::Key));
    assert_eq!(
        press(&mut a, KeyCode::Enter),
        Action::Modal(ModalAction::Confirm(PickerKind::Key))
    );
    assert_eq!(
        typed(&mut a, 'j'),
        Action::Modal(ModalAction::PickerDown(PickerKind::Key))
    );
    a.modal = Some(ModalFocus {
        mode_picker: false,
        key_picker: false,
        output_picker: true,
        dks_action_picker: false,
    });
    assert_eq!(typed(&mut a, 'j'), Action::Modal(ModalAction::PushFilter('j')));
    assert_eq!(press(&mut a, KeyCode::Tab), Action::Modal(ModalAction::ToggleChordKey));
    a.modal = Some(ModalFocus {
        mode_picker: false,
        key_picker: false,
        output_picker: false,
        dks_action_picker: false,
    });
    assert_eq!(a.focus(), Focus::Filter);
    for _ in 0..9 {
        press(&mut a, KeyCode::Down);
    }
    assert_eq!(a.key_mapping.filter_field, 3);
    assert_eq!(press(&mut a, KeyCode::Right), Action::CycleFilterField(true));
    typed(&mut a, 'f');
    assert_eq!(a.focus(), Focus::Modal);
    assert_eq!(typed(&mut a, 'l'), Action::Modal(ModalAction::Increment(false)));
    let save = KeyPress {
        control: true,
        ..key(KeyCode::Char('s'))
    };
    assert_eq!(a.handle_key(save, 0, None), Action::Modal(ModalAction::Save));
    assert_eq!(typed(&mut a, 's'), Action::Nothing);
    a.modal = None;
    assert_eq!(a.focus(), Focus::Main);
    assert_eq!(typed(&mut a, 'q'), Action::Quit);
}

#[test]
fn the_hex_input_holds_six_digits() {
    let mut a = app();
    a.hex.editing = true;
    for c in "12xabCdEf99".chars() {
        typed(&mut a, c);
    }
    assert_eq!(a.hex.input, "12ABCD");
    press(&mut a, KeyCode::Backspace);
    assert_eq!(a.hex.input, "12ABC");
    assert_eq!(press(&mut a, KeyCode::Enter), Action::ApplyHexInput);
    for _ in 0..7 {
        press(&mut a, KeyCode::Backspace);
    }
    assert_eq!(a.hex.input, "");
}

#[test]
fn alt_digits_switch_tabs() {
    let mut a = app();
    let alt = |c: char| KeyPress {
        alt: true,
        ..key(KeyCode::Char(c))
    };
    a.selected = 3;
    match a.handle_key(alt('3'), 0, Some(7)) {
        Action::EnterTab(loads) => assert!(loads.key_mapping),
        other => panic!("{other:?}"),
    }
    assert_eq!((a.tab, a.selected), (2, 0));
    assert_eq!(a.handle_key(alt('5'), 0, None), Action::Nothing);
    assert_eq!(a.tab, 2);
    assert_eq!(a.handle_key(alt('4'), 0, None), Action::Nothing);
    assert_eq!(a.tab, 2);
    let mut n = with_notify();
    n.handle_key(alt('4'), 0, None);
    assert_eq!(n.tab, 3);
    assert_eq!(n.handle_key(alt('5'), 0, None), Action::Nothing);
    assert_eq!((a.tab_count(), n.tab_count()), (3, 4));
    assert_eq!(a.tab_count(), a.tab_names().len());
    assert_eq!(n.tab_count(), n.tab_names().len());
}

#[test]
fn the_depth_cursor_moves_by_rows() {
    let mut a = app();
    a.tab = 1;
    a.depth_keys = 90;
    a.depth_cursor = 14;
    press(&mut a, KeyCode::Down);
    assert_eq!(a.depth_cursor, 29);
    press(&mut a, KeyCode::Down);
    assert_eq!(a.depth_cursor, 42);
    press(&mut a, KeyCode::Down);
    press(&mut a, KeyCode::Down);
    press(&mut a, KeyCode::Down);
    assert_eq!(a.depth_cursor, 65);
    press(&mut a, KeyCode::Right);
    assert_eq!(a.depth_cursor, 65);
    press(&mut a, KeyCode::Up);
    assert_eq!(a.depth_cursor, 52);
    press(&mut a, KeyCode::Left);
    assert_eq!(a.depth_cursor, 51);
    assert_eq!(typed(&mut a, ' '), Action::ToggleKeySelection(51));
    assert_eq!(selection_notice("A", true), "Selected Key A for time series");
    assert_eq!(selection_notice("A", false), "Deselected Key A");
    a.selected_keys = vec![7];
    a.toggle_key_selection(51, "A");
    assert_eq!(a.selected_keys, vec![7, 51]);
    assert_eq!(a.status_msg, "Selected Key A for time series");
    a.toggle_key_selection(7, "B");
    assert_eq!(a.selected_keys, vec![51]);
    assert_eq!(a.status_msg, "Deselected Key B");
    a.depth_view_mode = DepthViewMode::TimeSeries;
    assert_eq!(typed(&mut a, ' '), Action::Nothing);
    assert_eq!(typed(&mut a, 'v'), Action::ToggleDepthView);
    assert_eq!(typed(&mut a, 'x'), Action::ClearDepthData);
}

#[test]
fn the_key_mapping_is_walked_by_rows_and_pages() {
    let mut a = app();
    a.tab = 2;
    assert_eq!(press(&mut a, KeyCode::Down), Action::ScrollDown(1));
    assert_eq!(a.key_mapping.selected, 1);
    assert_eq!(press(&mut a, KeyCode::PageDown), Action::ScrollDown(10));
    assert_eq!(a.key_mapping.selected, 11);
    a.handle_key(key(KeyCode::PageDown), 15, None);
    assert_eq!(a.key_mapping.selected, 14);
    assert_eq!(a.handle_key(key(KeyCode::Down), 15, None), Action::Nothing);
    press(&mut a, KeyCode::PageUp);
    assert_eq!(a.key_mapping.selected, 4);
    assert_eq!(press(&mut a, KeyCode::Enter), Action::EditKey(4));
    assert_eq!(a.handle_key(key(KeyCode::Enter), 4, None), Action::Nothing);
    assert_eq!(typed(&mut a, 'g'), Action::EditAllKeys);
    typed(&mut a, 'v');
    assert_eq!(a.key_mapping.view, KeyMappingView::Layout);
    assert_eq!(press(&mut a, KeyCode::Left), Action::LayoutMove(-1, 0));
    assert_eq!(press(&mut a, KeyCode::Up), Action::LayoutMove(0, -1));
    assert_eq!(typed(&mut a, 's'), Action::CycleSort);
    typed(&mut a, 'f');
    assert!(a.key_mapping.filter_open);
    a.handle_key(key(KeyCode::Esc), 0, None);
    a.handle_key(key(KeyCode::PageDown), 0, None);
    assert_eq!(a.key_mapping.selected, 0);
}

fn on_tag(tag: InfoTag) -> App {
    let mut a = app();
    a.info_tags = vec![InfoTag::ReadOnly, tag];
    a.selected = 1;
    a
}

#[test]
fn arrows_adjust_the_selected_setting() {
    let mut a = on_tag(InfoTag::Debounce);
    a.info.debounce = 24;
    assert_eq!(press(&mut a, KeyCode::Right), Action::SetDebounce(25));
    let coarse = KeyPress {
        shift: true,
        ..key(KeyCode::Left)
    };
    assert_eq!(a.handle_key(coarse, 0, None), Action::SetDebounce(19));
    let mut a = on_tag(InfoTag::PollingRate);
    assert_eq!(press(&mut a, KeyCode::Right), Action::CyclePollingRate(-1));
    let mut a = on_tag(InfoTag::LedMode);
    a.info.led.mode = 22;
    assert_eq!(press(&mut a, KeyCode::Right), Action::SetLedMode(22));
    assert_eq!(press(&mut a, KeyCode::Left), Action::SetLedMode(21));
    let mut a = on_tag(InfoTag::SideGreen);
    a.info.side.r = 7;
    assert_eq!(press(&mut a, KeyCode::Right), Action::SetSideColor(7, 1, 0));
    let mut a = on_tag(InfoTag::LedSpeed);
    a.info.led.speed = 1;
    assert_eq!(press(&mut a, KeyCode::Right), Action::SetSpeed(4));
    let mut a = on_tag(InfoTag::FnLayer);
    assert_eq!(press(&mut a, KeyCode::Right), Action::Nothing);
    a.process_async_result(AsyncResult::Options(Ok(KeyboardOptions::default())));
    assert_eq!(press(&mut a, KeyCode::Right), Action::SetFnLayer(1));
    let mut a = on_tag(InfoTag::SleepDeepBt);
    assert_eq!(
        press(&mut a, KeyCode::Left),
        Action::UpdateSleepTime(SleepField::DeepBt, -60)
    );
    let mut a = on_tag(InfoTag::ScreenGammaG);
    assert_eq!(
        press(&mut a, KeyCode::Left),
        Action::AdjustCalibration(CalField::GammaG, -1, false)
    );
    let mut a = on_tag(InfoTag::UserPicLayer);
    assert_eq!(press(&mut a, KeyCode::Left), Action::SetUserPicLayer(3));
    a.userpic_layer = 3;
    assert_eq!(press(&mut a, KeyCode::Right), Action::SetUserPicLayer(0));
    a.selected = 9;
    assert_eq!(press(&mut a, KeyCode::Right), Action::Nothing);
}

#[test]
fn the_device_tab_reads_hex_digits_first() {
    let mut a = on_tag(InfoTag::SideColorHex);
    assert_eq!(
        typed(&mut a, 'c'),
        Action::StartHexInputWith(HexColorTarget::SideLed, 'C')
    );
    assert_eq!(typed(&mut a, '#'), Action::StartHexInput(HexColorTarget::SideLed));
    let mut a = on_tag(InfoTag::Debounce);
    assert_eq!(typed(&mut a, 'd'), Action::Nothing);
    assert!(!a.picker.open);
    a.tab = 1;
    assert_eq!(typed(&mut a, 'd'), Action::ScanDevices);
    assert!(a.picker.open);
    let mut a = on_tag(InfoTag::Device);
    assert_eq!(press(&mut a, KeyCode::Enter), Action::ScanDevices);
    let mut a = on_tag(InfoTag::FirmwareCheck);
    assert_eq!(press(&mut a, KeyCode::Enter), Action::CheckFirmware);
    assert_eq!(typed(&mut a, 'p'), Action::ApplyPerKeyColor);
    a.tab = 1;
    let ctrl = |c: char| KeyPress {
        control: true,
        ..key(KeyCode::Char(c))
    };
    assert_eq!(a.handle_key(ctrl('p'), 0, None), Action::CycleProfile);
    assert_eq!(a.handle_key(ctrl('2'), 0, None), Action::SetProfile(Profile::Second));
    assert_eq!(typed(&mut a, 'c'), Action::Connect);
    assert_eq!(typed(&mut a, 'r'), Action::Refresh);
}

#[test]
fn monitoring_is_toggled_and_told() {
    let mut a = app();
    assert_eq!(typed(&mut a, 'm'), Action::ReportDepths(true));
    assert_eq!(a.status_msg, "Key depth monitoring ENABLED");
    assert_eq!(typed(&mut a, 'm'), Action::ReportDepths(false));
    assert_eq!(a.status_msg, "Key depth monitoring DISABLED");
    typed(&mut a, '?');
    assert!(a.show_help);
}

#[test]
fn the_notification_tab_has_its_own_keys() {
    let mut n = with_notify();
    n.tab = 3;
    assert_eq!(press(&mut n, KeyCode::Tab), Action::Notify(KeyCode::Tab));
    assert_eq!(press(&mut n, KeyCode::Esc), Action::Quit);
    n.notify.effect_list_focused = false;
    assert_eq!(press(&mut n, KeyCode::Esc), Action::Notify(KeyCode::Esc));
    assert_eq!(typed(&mut n, 'z'), Action::Notify(KeyCode::Char('z')));
    let mut a = app();
    a.tab = 3;
    assert_eq!(press(&mut a, KeyCode::Tab), Action::Nothing);
    assert_eq!(press(&mut a, KeyCode::Esc), Action::Quit);
}

#[test]
fn outputs_land_where_their_picker_was_opened() {
    assert_eq!(output_target(true, 2), OutputTarget::Slot(2));
    assert_eq!(output_target(false, 2), OutputTarget::Output);
}

const BAR: Area = Area {
    x: 0,
    y: 1,
    width: 60,
    height: 1,
};

const CONTENT: Area = Area {
    x: 0,
    y: 2,
    width: 80,
    height: 20,
};

#[test]
fn clicks_bring_tabs_to_the_front() {
    let mut a = with_notify();
    assert_eq!(
        a.tab_names(),
        vec!["Device Info", "Key Depth", "Key Mapping", "Notify"]
    );
    assert!(matches!(a.click(16, 1, BAR, CONTENT, None), Action::EnterTab(_)));
    assert_eq!(a.tab, 1);
    assert_eq!(a.status_msg, "Switched to tab 1");
    a.status_msg = String::new();
    a.click(17, 1, BAR, CONTENT, None);
    assert_eq!(a.status_msg, "");
    assert_eq!(a.click(14, 1, BAR, CONTENT, None), Action::Nothing);
    a.click(43, 1, BAR, CONTENT, None);
    assert_eq!(a.tab, 3);
    let mut b = app();
    assert_eq!(b.click(43, 1, BAR, CONTENT, None), Action::Nothing);
    b.info_tags = vec![InfoTag::ReadOnly; 5];
    b.click(4, 6, BAR, CONTENT, None);
    assert_eq!(b.selected, 3);
    b.click(4, 12, BAR, CONTENT, None);
    assert_eq!(b.selected, 3);
    assert_eq!(wheel(true, 4, 6, CONTENT), Action::ScrollUp(1));
    assert_eq!(wheel(false, 4, 1, CONTENT), Action::Nothing);
}

#[test]
fn the_lines_of_the_screen_are_composed() {
    let mut a = app();
    assert_eq!(
        title_text(a.connected, &a.device.name),
        "MonsGeek/Akko Keyboard - Configuration Tool"
    );
    assert_eq!(profile_text(&a), "");
    assert_eq!(status_text(&a), " [Disconnected]  | ?:Help q:Quit");
    assert_eq!(tab_hint(&a), " Alt+1-3: switch tabs ");
    a.attach(device("M1", true), None);
    a.info.profile = Profile::Second;
    a.battery = Some(battery(76, true));
    a.status_msg = String::from("ok");
    a.depth_monitoring = true;
    assert_eq!(title_text(true, "M1"), "M1 - Configuration Tool");
    assert_eq!(profile_text(&a), " Profile 2/4  ^P ");
    assert_eq!(
        status_text(&a),
        " [Connected Profile 2 █76%(v) zzz] ok | ?:Help q:Quit MONITORING"
    );
    a.hex.editing = true;
    a.hex.input = String::from("FF");
    assert!(status_text(&a).ends_with("Enter hex color: #FF | Esc:Cancel Enter:Apply"));
    assert_eq!(battery_text(true, &None, &None), " ?%");
    assert_eq!(battery_text(true, &Some(battery(25, false)), &None), " ▁25%(?)");
    assert_eq!(battery_text(false, &Some(battery(25, false)), &None), "");
}

#[test]
fn the_device_picker_fits_the_screen() {
    let screen = Area {
        x: 0,
        y: 0,
        width: 100,
        height: 30,
    };
    assert_eq!(
        picker_area(3, screen),
        Area {
            x: 20,
            y: 11,
            width: 60,
            height: 7,
        }
    );
    assert_eq!(picker_area(0, screen).height, 5);
    assert_eq!(picker_area(500, screen).height, 26);
    assert_eq!(
        picker_line(&item(3, false)),
        "#3  MonsGeek M1 V5 HE      usb     [2949 v4.07] (asleep)"
    );
    let mut plain = item(12, true);
    plain.label.device_id = None;
    plain.label.version = None;
    assert_eq!(picker_line(&plain), "#12 MonsGeek M1 V5 HE      usb     [0]");
}
