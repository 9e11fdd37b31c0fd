use iot_driver::error::KeyboardError;
use iot_driver::exchange::{Reply, Step};
use iot_driver::keyboard::{DeviceInfo, KeyboardInterface};
use iot_driver::led::{LedMode, LedParams, RgbColor};
use iot_driver::macros::{encode_macro, parse_macro_events, text_macro_events, MacroEvent};
use iot_driver::magnetism::{
    DksConfig, KeyMode, KeyTriggerSettings, ModeByte, TriggerSettings,
};
use iot_driver::patches::{parse_patch_info, AnimReply, AnimReport, AnimSlot};
use iot_driver::protocol::{
    ChecksumType, CommandTable, DefId, Delivery, Frame, KeymatrixLayer, Layer, LedPos, MacroSlot,
    MagnetismTable, PollingRate, Profile, Request, StripIdx,
};
use iot_driver::settings::{
    FirmwareVersion, KeyboardOptions, Precision, PrecisionThresholds, SleepTimeSettings,
    TravelDepth,
};

fn commands() -> CommandTable {
    CommandTable {
        get_profile: 0x84,
        set_profile: 0x04,
        get_debounce: 0x86,
        set_debounce: 0x06,
        get_report: Some(0x83),
        set_report: Some(0x03),
        get_sleeptime: Some(0x91),
        set_sleeptime: Some(0x11),
        get_kboption: Some(0x89),
        set_kboption: Some(0x09),
        set_reset: 0x02,
        get_keymatrix: 0x8A,
        set_keymatrix: 0x0A,
        set_macro: 0x0B,
        get_usb_version: 0x8F,
        get_feature_list: 0xE6,
        get_ledparam: 0x87,
        set_ledparam: 0x07,
        get_sledparam: 0x88,
        set_sledparam: 0x08,
        get_userpic: 0x8C,
        set_userpic: 0x0C,
        get_fn: 0x90,
        get_macro: 0x8B,
        get_multi_magnetism: 0xE5,
        set_multi_magnetism: 0x65,
        set_magnetism_cal: 0x1C,
        set_magnetism_max_cal: 0x1E,
        led_stream: 0xE8,
        get_patch_info: 0xE7,
        dazzle_off: 8,
        magnetism: MagnetismTable {
            press_travel: 0,
            lift_travel: 1,
            rt_press: 2,
            rt_lift: 3,
            dks_travel: 4,
            modtap_time: 5,
            bottom_deadzone: 6,
            key_mode: 7,
            dks_trigger_modes_set: 8,
            snaptap_enable: 9,
            dks_modes: 10,
            top_deadzone: 0xFB,
            calibration: 0xFE,
            dks_mode: 2,
        },
        precision: PrecisionThresholds {
            medium: 0x300,
            fine: 0x500,
        },
    }
}

fn keyboard() -> KeyboardInterface {
    keyboard_of(6)
}

fn keyboard_of(key_count: u8) -> KeyboardInterface {
    KeyboardInterface::new(
        DeviceInfo {
            vid: 0x3151,
            pid: 0x5030,
            product_name: None,
            wireless: false,
            dongle: false,
        },
        key_count,
        true,
        commands(),
        vec![
            PollingRate { code: 0, hz: 8000 },
            PollingRate { code: 3, hz: 1000 },
        ],
    )
}

/// Carry an operation through: answer its requests one by one.
fn drive<T>(
    op: impl Fn(&[Reply]) -> Step<T>,
    mut answer: impl FnMut(&Request) -> Reply,
) -> (Result<T, KeyboardError>, Vec<Request>) {
    let mut replies: Vec<Reply> = Vec::new();
    let mut asked: Vec<Request> = Vec::new();
    loop {
        match op(&replies) {
            Step::Ask(request) => {
                replies.push(answer(&request));
                asked.push(request);
            }
            Step::Done(result) => return (result, asked),
        }
    }
}

fn done(_: &Request) -> Reply {
    Ok(Vec::new())
}

fn frame(request: &Request) -> &Frame {
    match request {
        Request::Raw(f) => f,
        other => panic!("no raw request: {other:?}"),
    }
}

fn once<T>(op: impl Fn(&[Reply]) -> Step<T>, answer: Vec<u8>) -> Result<T, KeyboardError> {
    drive(op, |_| Ok(answer.clone())).0
}

fn unexpected(m: &str) -> KeyboardError {
    KeyboardError::UnexpectedResponse(m.to_string())
}

fn invalid(m: &str) -> KeyboardError {
    KeyboardError::InvalidParameter(m.to_string())
}

fn unsupported(m: &str) -> KeyboardError {
    KeyboardError::NotSupported(m.to_string())
}

#[test]
fn version_answers_are_decoded() {
    let kb = keyboard();
    let answer = vec![0x8F, 0x85, 0x0B, 0, 0, 0, 0, 0x07, 0x04];
    let (id, asked) = drive(|r| kb.get_device_id(r), |_| Ok(answer.clone()));
    assert_eq!(id, Ok(2949));
    assert_eq!(
        asked,
        vec![Request::Raw(Frame {
            cmd: 0x8F,
            data: Vec::new(),
            checksum: ChecksumType::Bit7,
            delivery: Delivery::Query,
        })]
    );
    assert_eq!(
        once(|r| kb.get_version(r), answer),
        Ok(FirmwareVersion { raw: 0x407 })
    );
    assert_eq!(
        once(|r| kb.get_device_id(r), vec![0x8F, 1, 2, 3]),
        Err(unexpected("Invalid device ID response"))
    );
    assert_eq!(
        once(|r| kb.get_version(r), vec![0x84; 9]),
        Err(unexpected("Invalid version response"))
    );
    let lost = KeyboardError::Transport(String::from("gone"));
    let (id, _) = drive(|r| kb.get_device_id(r), |_| Err(lost.clone()));
    assert_eq!(id, Err(lost));
}

#[test]
fn profiles_are_read_and_switched() {
    let kb = keyboard();
    assert_eq!(once(|r| kb.get_profile(r), vec![0x84, 2]), Ok(Profile::Third));
    assert_eq!(
        once(|r| kb.get_profile(r), vec![0x84, 4]),
        Err(invalid("profile index must be 0-3"))
    );
    assert_eq!(
        once(|r| kb.get_profile(r), vec![]),
        Err(unexpected("Invalid profile response"))
    );
    let (r, asked) = drive(|r| kb.set_profile(Profile::Fourth, r), done);
    assert_eq!(r, Ok(()));
    assert_eq!(frame(&asked[0]).cmd, 0x04);
    assert_eq!(frame(&asked[0]).data, vec![3]);
    assert_eq!(Profile::Fourth.number(), 4);
}

#[test]
fn polling_rates_are_capped_at_the_model() {
    let mut kb = keyboard();
    assert_eq!(
        once(|r| kb.get_polling_rate(r), vec![0x83, 0, 3]),
        Ok(PollingRate { code: 3, hz: 1000 })
    );
    assert_eq!(
        once(|r| kb.get_polling_rate(r), vec![0x83, 0, 0x1F]),
        Err(unexpected("Unknown polling rate: 0x1F"))
    );
    assert_eq!(
        once(|r| kb.get_polling_rate(r), vec![0x83, 0]),
        Err(unexpected("Invalid polling rate response"))
    );
    let rate = PollingRate { code: 0, hz: 8000 };
    let (r, asked) = drive(|r| kb.set_polling_rate(rate, r), done);
    assert_eq!(r, Ok(()));
    // The byte behind the command stays zero.
    assert_eq!(frame(&asked[0]).data, vec![0, 0]);

    kb.set_polling_rates(vec![500, 1000]);
    let (r, asked) = drive(|r| kb.set_polling_rate(rate, r), done);
    assert_eq!(
        r,
        Err(unsupported("8000 Hz is above this device's maximum of 1000 Hz"))
    );
    assert!(asked.is_empty());

    kb.commands.set_report = None;
    kb.commands.get_report = None;
    let message = "Polling rate not available on this device";
    assert_eq!(drive(|r| kb.set_polling_rate(rate, r), done).0, Err(unsupported(message)));
    assert_eq!(drive(|r| kb.get_polling_rate(r), done).0, Err(unsupported(message)));
}

#[test]
fn debounce_is_bounded() {
    let kb = keyboard();
    assert_eq!(once(|r| kb.get_debounce(r), vec![0x86, 7]), Ok(7));
    assert_eq!(
        once(|r| kb.get_debounce(r), vec![0x87, 7]),
        Err(unexpected("Invalid debounce response"))
    );
    let (r, asked) = drive(|r| kb.set_debounce(50, r), done);
    assert_eq!(r, Ok(()));
    assert_eq!(frame(&asked[0]).data, vec![50]);
    assert_eq!(
        drive(|r| kb.set_debounce(51, r), done).0,
        Err(invalid("Debounce must be 0-50ms"))
    );
}

#[test]
fn sleep_times_round_trip_on_the_wire() {
    let kb = keyboard();
    let s = SleepTimeSettings::new(120, 300, 1680, 0x1234);
    let (r, asked) = drive(|r| kb.set_sleep_time(&s, r), done);
    assert_eq!(r, Ok(()));
    let data = frame(&asked[0]).data.clone();
    assert_eq!(data, vec![0, 0, 0, 0, 0, 0, 0, 120, 0, 0x2C, 1, 0x90, 6, 0x34, 0x12]);
    let mut answer = vec![0x91];
    answer.extend(data);
    assert_eq!(once(|r| kb.get_sleep_time(r), answer), Ok(s));
    assert_eq!(
        once(|r| kb.get_sleep_time(r), vec![0x91; 15]),
        Err(unexpected("Invalid sleep time response"))
    );
}

#[test]
fn options_are_read_behind_the_echo() {
    let mut kb = keyboard();
    let answer = vec![0x89, 1, 1, 0, 3, 1, 0, 0, 0];
    let options = once(|r| kb.get_kb_options(r), answer).unwrap();
    assert_eq!(options.to_bytes(), [1, 1, 0, 3, 1]);
    let (r, asked) = drive(|r| kb.set_kb_options(&options, r), done);
    assert_eq!(r, Ok(()));
    assert_eq!(frame(&asked[0]).data, vec![1, 1, 0, 3, 1]);
    assert_eq!(
        once(|r| kb.get_kb_options(r), vec![0x89; 8]),
        Err(unexpected("Invalid KB options response"))
    );
    kb.commands.get_kboption = None;
    kb.commands.set_kboption = None;
    let message = "KB options not available on this device";
    assert_eq!(drive(|r| kb.get_kb_options(r), done).0, Err(unsupported(message)));
    assert_eq!(
        drive(|r| kb.set_kb_options(&KeyboardOptions::default(), r), done).0,
        Err(unsupported(message))
    );
}

#[test]
fn precision_falls_back_to_the_version() {
    let kb = keyboard();
    let told = |features: Vec<u8>, version: u16| {
        let v = version.to_le_bytes();
        drive(
            |r| kb.get_precision(r),
            |request| {
                if frame(request).cmd == 0xE6 {
                    Ok(features.clone())
                } else {
                    Ok(vec![0x8F, 0, 0, 0, 0, 0, 0, v[0], v[1]])
                }
            },
        )
    };
    let (p, asked) = told(vec![0xE6, 0xAA, 2], 0x500);
    assert_eq!(p, Ok(Precision::Medium));
    assert_eq!(asked.len(), 1);
    let (p, asked) = told(vec![], 0x407);
    assert_eq!(p, Ok(Precision::Medium));
    assert_eq!(asked.len(), 2);
    assert_eq!(told(vec![], 0x500).0, Ok(Precision::Fine));
    assert_eq!(told(vec![], 0x2FF).0, Ok(Precision::Coarse));
}

#[test]
fn the_matrix_knows_names_and_defaults() {
    let mut kb = keyboard();
    assert_eq!(kb.matrix_size(), 6);
    kb.set_matrix_key_names(vec![String::from("Esc"), String::new()]);
    kb.set_matrix_defaults(vec![0x29, 0]);
    kb.set_non_analog_positions(vec![1]);
    assert_eq!(kb.matrix_size(), 2);
    assert_eq!(kb.matrix_key_name(0), "Esc");
    assert_eq!(kb.matrix_key_name(9), "");
    assert_eq!(kb.matrix_default(0), Some(0x29));
    assert_eq!(kb.matrix_default(1), None);
    assert_eq!(kb.matrix_default(7), None);
    assert!(kb.is_non_analog(1));
    assert!(!kb.is_non_analog(0));
    assert_eq!(kb.device_name(), "3151:5030");
}

#[test]
fn battery_is_never_told_to_charge() {
    let kb = keyboard();
    assert_eq!(kb.get_battery(None), Step::Ask(Request::BatteryStatus));
    match kb.get_battery(Some(Ok((80, true, false)))) {
        Step::Done(Ok(b)) => {
            assert_eq!((b.level, b.online, b.charging, b.idle), (80, true, false, false));
        }
        other => panic!("{other:?}"),
    }
}

/// A layer store that answers page queries and takes key writes.
fn layer_answer(store: &mut Vec<u8>, request: &Request) -> Reply {
    match request {
        Request::KeyMatrix { key_index, config, .. } => {
            let at = *key_index as usize * 4;
            store[at..at + 4].copy_from_slice(config);
            Ok(Vec::new())
        }
        Request::Raw(f) => {
            let page = f.data[2] as usize;
            Ok(store[page * 64..page * 64 + 64].to_vec())
        }
        other => panic!("{other:?}"),
    }
}

#[test]
fn a_written_binding_is_read_back() {
    let kb = keyboard();
    let mut store: Vec<u8> = (0..512usize).map(|i| (i % 251) as u8).collect();
    let before = store[40..44].to_vec();
    let config = [9, 0, 3, 0];
    let (r, asked) = drive(
        |r| {
            kb.set_keymatrix_config(
                Profile::Second,
                11,
                KeymatrixLayer::Layer1,
                config,
                true,
                r,
            )
        },
        |q| layer_answer(&mut store, q),
    );
    assert_eq!(r, Ok(()));
    assert_eq!(
        asked[0],
        Request::KeyMatrix {
            profile: Profile::Second,
            key_index: 11,
            layer: KeymatrixLayer::Layer1,
            commit: true,
            config,
            wait_ms: Some(250),
        }
    );
    let read = |key: u8, store: &mut Vec<u8>| {
        drive(
            |r| kb.get_key_config_at_layer(Profile::Second, KeymatrixLayer::Layer1, key, r),
            |q| layer_answer(store, q),
        )
    };
    let (r, asked) = read(11, &mut store);
    assert_eq!(r, Ok(config));
    assert_eq!(asked.len(), 8);
    assert_eq!(frame(&asked[7]).data, vec![1, 0xFF, 7, 1]);
    assert_eq!(frame(&asked[7]).delivery, Delivery::QueryPage(64));
    assert_eq!(read(10, &mut store).0.unwrap().to_vec(), before);
    assert_eq!(
        read(128, &mut store).0,
        Err(invalid("key_index 128 out of range for keymatrix"))
    );
}

#[test]
fn a_failed_page_ends_the_read() {
    let kb = keyboard();
    let lost = KeyboardError::Transport(String::from("timeout"));
    let mut n = 0;
    let (r, asked) = drive(
        |r| kb.get_keymatrix(Profile::First, KeymatrixLayer::Layer0, 8, r),
        |_| {
            n += 1;
            if n == 3 {
                Err(lost.clone())
            } else {
                Ok(vec![0; 64])
            }
        },
    );
    assert_eq!(r, Err(lost.clone()));
    assert_eq!(asked.len(), 3);
    assert_eq!(
        once(|r| kb.get_keymatrix(Profile::First, KeymatrixLayer::Layer0, 8, r), vec![]),
        Err(unexpected("No keymatrix data"))
    );
    assert_eq!(
        once(|r| kb.get_fn_keymatrix(Profile::First, 0, 8, r), vec![]),
        Err(unexpected("GET_FN returned no data"))
    );
}

#[test]
fn layers_are_written_to_their_own_stores() {
    let mut kb = keyboard();
    kb.set_active_profile(Profile::Third);
    let (_, asked) = drive(|r| kb.set_layer_config(Layer::Fn, 5, [3, 0, 0xE9, 0], r), done);
    assert_eq!(
        asked[0],
        Request::FnKey {
            sys: 0,
            profile: Profile::Third,
            key_index: 5,
            config: [3, 0, 0xE9, 0],
        }
    );
    let message = "base layer has no ROM fallback; write the factory keycode instead";
    assert_eq!(drive(|r| kb.reset_key(Layer::Base, 5, r), done).0, Err(invalid(message)));
    let (r, asked) = drive(|r| kb.reset_key(Layer::Layer1, 5, r), done);
    assert_eq!(r, Ok(()));
    match &asked[0] {
        Request::KeyMatrix { layer, config, .. } => {
            assert_eq!(*layer, KeymatrixLayer::Layer1);
            assert_eq!(*config, [0; 4]);
        }
        other => panic!("{other:?}"),
    }
    assert_eq!(
        drive(|r| kb.unassign_macro_from_key(Layer::Base, 5, r), done).0,
        Err(invalid(message))
    );
    let (_, asked) = drive(
        |r| kb.assign_macro_to_key(Layer::Base, 5, MacroSlot { slot: 3 }, 1, r),
        done,
    );
    match &asked[0] {
        Request::KeyMatrix { config, .. } => assert_eq!(*config, [9, 1, 3, 0]),
        other => panic!("{other:?}"),
    }
}

fn event(keycode: u8, is_down: bool, delay_ms: u16) -> MacroEvent {
    MacroEvent {
        keycode,
        is_down,
        delay_ms,
    }
}

#[test]
fn macro_events_take_the_short_or_the_long_form() {
    let events = vec![event(4, true, 10), event(4, false, 0), event(5, true, 300)];
    let data = encode_macro(&events, 2);
    assert_eq!(data.len(), 56);
    assert_eq!(
        data[..12],
        [2, 0, 4, 0x8A, 4, 0, 0, 0, 5, 0x80, 0x2C, 1]
    );
    assert!(data[12..].iter().all(|b| *b == 0));
    assert_eq!(parse_macro_events(&data), (2, events));
    assert_eq!(parse_macro_events(&[7]), (0, Vec::new()));
}

/// Write a macro to a slot, and read the slot.
fn written_and_read(events: &Vec<MacroEvent>, repeat: u16) -> (u16, Vec<MacroEvent>) {
    let kb = keyboard();
    let slot = MacroSlot { slot: 4 };
    let mut store = vec![0xFFu8; 256];
    let (r, _) = drive(
        |r| kb.set_macro(slot, events, repeat, r),
        |q| match q {
            Request::MacroPage { page, chunk, .. } => {
                let at = *page as usize * 56;
                store[at..at + chunk.len()].copy_from_slice(chunk);
                if at + chunk.len() < 256 {
                    for b in store[at + chunk.len()..].iter_mut() {
                        *b = 0;
                    }
                }
                Ok(Vec::new())
            }
            other => panic!("{other:?}"),
        },
    );
    assert_eq!(r, Ok(()));
    let (data, _) = drive(
        |r| kb.get_macro(slot, r),
        |q| {
            let page = frame(q).data[1] as usize;
            Ok(store[page * 64..page * 64 + 64].to_vec())
        },
    );
    parse_macro_events(&data.unwrap())
}

#[test]
fn a_written_macro_is_read_back_from_its_slot() {
    let events: Vec<MacroEvent> = (0..40u16)
        .map(|i| event(4 + (i % 20) as u8, i % 2 == 0, i * 9))
        .collect();
    assert!(encode_macro(&events, 7).len() > 56);
    assert_eq!(written_and_read(&events, 7), (7, events));
}

#[test]
fn key_code_zero_is_read_back_unless_it_ends_the_macro() {
    let events = vec![event(0, true, 50), event(0, false, 7), event(0, true, 0)];
    assert_eq!(written_and_read(&events, 0x0102), (0x0102, events));
    let ended = vec![event(4, true, 5), event(0, false, 300), event(4, false, 5)];
    assert_eq!(written_and_read(&ended, 1), (1, vec![event(4, true, 5)]));
}

#[test]
fn four_zeros_in_a_page_end_the_reading() {
    // The first two events put four zeros in a row into the first page, which ends two
    // bytes before the macro does.
    let mut events = vec![event(4, false, 0), event(0, false, 50)];
    events.extend((0..27).map(|_| event(6, true, 9)));
    events.push(event(5, false, 0));
    assert_eq!(written_and_read(&events, 3), (3, events.clone()));
    let mut longer = events.clone();
    longer.push(event(7, true, 1));
    assert_eq!(written_and_read(&longer, 3), (3, events));
}

#[test]
fn typed_text_presses_and_releases_each_key() {
    let events = text_macro_events(&[Some((4, false)), None, Some((5, true))], 10);
    assert_eq!(events[0], event(4, true, 10));
    assert_eq!(events[1], event(4, false, 10));
    assert_eq!(events.iter().filter(|e| e.is_down).count(), events.len() / 2);
    assert!(events.iter().any(|e| e.keycode == 0xE1 && e.is_down));
}

/// A set of trigger tables that answer page queries and take entries and pages.
struct Tables {
    bytes: Vec<Vec<u8>>,
}

impl Tables {
    fn new() -> Tables {
        Tables {
            bytes: vec![vec![0; 640]; 256],
        }
    }

    fn answer(&mut self, request: &Request) -> Reply {
        let f = frame(request);
        let table = &mut self.bytes[f.data[0] as usize];
        if f.cmd == 0xE5 {
            let page = f.data[2] as usize;
            return Ok(table[page * 64..page * 64 + 64].to_vec());
        }
        let body = &f.data[7..];
        let at = if f.data[1] == 1 {
            f.data[2] as usize * 56
        } else {
            f.data[2] as usize * body.len()
        };
        table[at..at + body.len()].copy_from_slice(body);
        Ok(Vec::new())
    }
}

#[test]
fn written_triggers_are_read_back() {
    let kb = keyboard();
    let mut tables = Tables::new();
    let wanted = KeyTriggerSettings {
        key_index: 4,
        actuation: 200,
        deactuation: 0x123,
        mode: KeyMode { code: 3 },
        rapid_trigger: true,
    };
    let (r, asked) = drive(|r| kb.set_key_trigger(&wanted, r), |q| tables.answer(q));
    assert_eq!(r, Ok(()));
    assert_eq!(frame(&asked[0]).data, vec![0, 0, 4, 0, 0, 0, 0, 200, 0]);
    assert_eq!(frame(&asked[0]).delivery, Delivery::SendThenWait(30));
    assert_eq!(frame(&asked[2]).data, vec![7, 0, 4, 1, 0, 0, 0, 0x83]);
    assert_eq!(frame(&asked[2]).delivery, Delivery::SendThenWait(250));
    let (r, _) = drive(|r| kb.get_key_trigger(4, r), |q| tables.answer(q));
    assert_eq!(r, Ok(wanted));
    let (r, _) = drive(|r| kb.get_key_trigger(3, r), |q| tables.answer(q));
    assert_eq!(r.unwrap().actuation, 0);
}

#[test]
fn a_written_table_is_read_back() {
    let mut kb = keyboard();
    kb.key_count = 90;
    let mut tables = Tables::new();
    let (r, asked) = drive(
        |r| kb.set_actuation_all(TravelDepth::from_raw(0x1A2), r),
        |q| tables.answer(q),
    );
    assert_eq!(r, Ok(()));
    // 180 bytes in pages of 56; only the last saves.
    assert_eq!(asked.len(), 4);
    assert_eq!(frame(&asked[2]).data[..4], [0, 1, 2, 0]);
    assert_eq!(frame(&asked[3]).data[..4], [0, 1, 3, 1]);
    assert_eq!(frame(&asked[3]).data.len(), 7 + 12);
    let (r, _) = drive(|r| kb.get_all_triggers(r), |q| tables.answer(q));
    let all: TriggerSettings = r.unwrap();
    assert_eq!(all.press_travel, vec![0x1A2; 90]);
    assert_eq!(all.lift_travel, vec![0; 90]);
}

#[test]
fn missing_deadzones_read_as_empty() {
    let kb = keyboard();
    let (r, _) = drive(
        |r| kb.get_all_triggers(r),
        |q| {
            let sub = frame(q).data[0];
            if sub == 6 || sub == 0xFB {
                Err(KeyboardError::Transport(String::from("unsupported")))
            } else {
                Ok(vec![1; 64])
            }
        },
    );
    let all = r.unwrap();
    assert!(all.bottom_deadzone.is_empty());
    assert!(all.top_deadzone.is_empty());
    assert_eq!(all.press_travel, vec![0x101; 6]);
    assert_eq!(all.key_modes.len(), 64);
}

#[test]
fn boards_without_magnets_have_no_triggers() {
    let mut kb = keyboard();
    kb.has_magnetism = false;
    let message = "Device does not have Hall Effect switches";
    assert_eq!(drive(|r| kb.get_all_triggers(r), done).0, Err(unsupported(message)));
    assert_eq!(
        drive(|r| kb.start_magnetism_report(r), done).0,
        Err(unsupported(message))
    );
    let (r, asked) = drive(|r| kb.stop_magnetism_report(r), done);
    assert_eq!(r, Ok(()));
    assert!(asked.is_empty());
}

#[test]
fn rapid_trigger_keeps_the_base_modes() {
    let kb = keyboard();
    let (r, asked) = drive(
        |r| kb.set_rapid_trigger_all(true, r),
        |q| {
            if frame(q).cmd == 0xE5 {
                let mut page = vec![0; 64];
                page[..6].copy_from_slice(&[0, 1, 2, 0x83, 4, 5]);
                Ok(page)
            } else {
                Ok(Vec::new())
            }
        },
    );
    assert_eq!(r, Ok(()));
    assert_eq!(frame(&asked[1]).data, vec![7, 0x80, 0x81, 0x82, 0x83, 0x84, 0x85]);
    assert_eq!(ModeByte::from_u8(0x83).to_u8(), 0x83);
}

#[test]
fn snap_tap_pairs_bind_both_ways() {
    let kb = keyboard();
    let (_, asked) = drive(|r| kb.set_snaptap_pair(1, 3, r), done);
    assert_eq!(frame(&asked[0]).data, vec![9, 0, 1, 0, 0, 0, 0, 3]);
    assert_eq!(frame(&asked[1]).data, vec![9, 0, 3, 1, 0, 0, 0, 1]);

    let mut tables = Tables::new();
    tables.bytes[9] = vec![0xFF; 640];
    tables.bytes[9][1] = 3;
    tables.bytes[9][3] = 1;
    let (r, _) = drive(|r| kb.clear_snaptap(1, r), |q| tables.answer(q));
    assert_eq!(r, Ok(()));
    let (r, _) = drive(|r| kb.get_snaptap_binds(r), |q| tables.answer(q));
    assert_eq!(r, Ok(vec![0xFF; 6]));
}

#[test]
fn the_last_key_of_the_largest_board_can_be_paired() {
    let kb = keyboard_of(255);
    let mut tables = Tables::new();
    tables.bytes[9] = vec![0xFF; 640];
    let (r, _) = drive(|r| kb.set_snaptap_pair(254, 3, r), |q| tables.answer(q));
    assert_eq!(r, Ok(()));
    let (r, _) = drive(|r| kb.get_snaptap_binds(r), |q| tables.answer(q));
    let binds = r.unwrap();
    assert_eq!(binds.len(), 255);
    assert_eq!((binds[254], binds[3]), (3, 254));
    let (r, _) = drive(|r| kb.clear_snaptap(254, r), |q| tables.answer(q));
    assert_eq!(r, Ok(()));
    let (r, _) = drive(|r| kb.get_snaptap_binds(r), |q| tables.answer(q));
    assert_eq!(r, Ok(vec![0xFF; 255]));
}

#[test]
fn mod_tap_times_come_in_tens() {
    let kb = keyboard();
    let mut tables = Tables::new();
    let (r, asked) = drive(|r| kb.set_modtap_time(2, 257, r), |q| tables.answer(q));
    assert_eq!(r, Ok(()));
    assert_eq!(frame(&asked[0]).data[7], 25);
    let (r, _) = drive(|r| kb.get_modtap_times(r), |q| tables.answer(q));
    assert_eq!(r.unwrap()[2], 250);
    let (_, asked) = drive(|r| kb.set_modtap_time(2, 9000, r), done);
    assert_eq!(frame(&asked[0]).data[7], 255);
}

#[test]
fn dks_settings_keep_what_is_not_theirs() {
    let kb = keyboard();
    let config = DksConfig::from_parts(
        120,
        [0x11, 0x22, 0x33, 0x44],
        [[0; 4], [0, 0, 5, 0], [0, 0, 6, 0], [0, 0, 7, 0]],
    );
    let mut tables = Tables::new();
    tables.bytes[0][4] = 77;
    tables.bytes[7][2] = 0x80;
    let mut layers = vec![vec![0u8; 512]; 4];
    layers[0][8..12].copy_from_slice(&[9, 0, 3, 0]);
    let (r, asked) = drive(
        |r| kb.set_dks_config(2, &config, None, r),
        |q| match q {
            Request::KeyMatrix { key_index, layer, config, .. } => {
                let at = *key_index as usize * 4;
                layers[layer.get() as usize][at..at + 4].copy_from_slice(config);
                Ok(Vec::new())
            }
            Request::Raw(f) if f.cmd == 0x8A => {
                let page = f.data[2] as usize;
                Ok(layers[f.data[3] as usize][page * 64..page * 64 + 64].to_vec())
            }
            other => tables.answer(other),
        },
    );
    assert_eq!(r, Ok(()));
    // The key keeps its actuation and its Rapid Trigger flag, and is in DKS mode now.
    assert_eq!(tables.bytes[0][4], 77);
    assert_eq!(tables.bytes[7][2], 0x82);
    assert_eq!(tables.bytes[4][4], 120);
    // An empty first slot keeps what the key emits.
    assert_eq!(layers[0][8..12], [9, 0, 3, 0]);
    assert_eq!(layers[3][8..12], [0, 0, 7, 0]);
    let commits: Vec<bool> = asked
        .iter()
        .filter_map(|q| match q {
            Request::KeyMatrix { commit, .. } => Some(*commit),
            _ => None,
        })
        .collect();
    assert_eq!(commits, vec![false, false, false, true]);
}

fn white(mode: u8) -> LedParams {
    LedParams {
        mode: LedMode::from_u8(mode).unwrap(),
        brightness: 3,
        speed: 1,
        color: RgbColor::new(255, 255, 255),
        direction: 8,
    }
}

#[test]
fn led_payloads_are_bounded() {
    let kb = keyboard();
    let color = RgbColor::new(1, 2, 3);
    let (_, asked) = drive(|r| kb.set_led(5, 9, 4, color, true, r), done);
    assert_eq!(frame(&asked[0]).data, vec![5, 0, 4, 7, 1, 2, 3]);
    assert_eq!(frame(&asked[0]).checksum, ChecksumType::Bit8);
    // The picture mode names its slot and has a color of its own.
    let (_, asked) = drive(|r| kb.set_led_with_option(13, 4, 0, color, true, 2, r), done);
    assert_eq!(frame(&asked[0]).data, vec![13, 4, 4, 0x20, 0, 200, 200]);
    assert!(LedMode::from_u8(23).is_none());
}

#[test]
fn the_led_mode_is_changed_alone() {
    let kb = keyboard();
    let mode = LedMode::from_u8(9).unwrap();
    assert_eq!(kb.set_led_mode(mode, None, &[]), Step::Ask(Request::LedQuery));
    assert_eq!(
        kb.set_led_mode(mode, Some(Ok(white(1))), &[]),
        Step::Ask(Request::Led(white(9)))
    );
    let side = once(|r| kb.get_side_led_params(r), vec![0x88, 99, 2, 3, 8, 10, 20, 30]).unwrap();
    assert_eq!(side.mode.as_u8(), 0);
    assert_eq!((side.speed, side.brightness), (2, 3));
    assert_eq!(
        once(|r| kb.get_side_led_params(r), vec![0x88; 7]),
        Err(unexpected("Invalid side LED params response"))
    );
}

#[test]
fn a_stored_picture_is_read_back() {
    let kb = keyboard();
    let picture: Vec<u8> = (0..288usize).map(|i| (i % 255) as u8).collect();
    let mut slot = vec![0xEEu8; 384];
    let (r, asked) = drive(
        |r| kb.upload_userpic(4, &picture, r),
        |q| {
            let f = frame(q);
            let at = f.data[2] as usize * 56;
            let body = &f.data[7..];
            assert_eq!(body.len(), f.data[3] as usize);
            slot[at..at + body.len()].copy_from_slice(body);
            Ok(Vec::new())
        },
    );
    assert_eq!(r, Ok(()));
    assert_eq!(asked.len(), 7);
    assert_eq!(frame(&asked[6]).data[..7], [4, 0xFF, 6, 42, 1, 0, 0]);
    let (r, asked) = drive(
        |r| kb.download_userpic(4, r),
        |q| {
            let page = frame(q).data[2] as usize;
            Ok(slot[page * 64..page * 64 + 64].to_vec())
        },
    );
    let read = r.unwrap();
    assert_eq!(asked.len(), 6);
    assert_eq!(read.len(), 384);
    assert_eq!(read[..288], picture[..]);
    assert_eq!(read[378..], [0xEE; 6]);
    let message = "Userpic slot must be 0-4";
    assert_eq!(drive(|r| kb.upload_userpic(5, &picture, r), done).0, Err(invalid(message)));
    assert_eq!(drive(|r| kb.download_userpic(5, r), done).0, Err(invalid(message)));
}

#[test]
fn colors_go_out_in_chunks_of_eighteen() {
    let mut kb = keyboard();
    kb.key_count = 20;
    let (_, asked) = drive(
        |r| kb.set_per_key_colors_fast(&[(1, 2, 3)], 2, 6, r),
        done,
    );
    assert_eq!(asked.len(), 4);
    assert_eq!(frame(&asked[1]).data[..2], [6, 1]);
    assert_eq!(frame(&asked[0]).data[2..8], [1, 2, 3, 0, 0, 0]);
    assert_eq!(frame(&asked[0]).data.len(), 56);
    let (_, asked) = drive(|r| kb.set_all_keys_color(RgbColor::new(9, 8, 7), 0, r), done);
    assert_eq!(frame(&asked[1]).data[2..11], [9, 8, 7, 9, 8, 7, 0, 0, 0]);
    let entries = vec![(1u8, 2u8, 3u8, 4u8); 14];
    let (_, asked) = drive(|r| kb.stream_led_sparse(&entries, r), done);
    assert_eq!(frame(&asked[0]).data[..6], [0xFD, 13, 1, 2, 3, 4]);
    assert_eq!(frame(&asked[1]).data, vec![0xFD, 1, 1, 2, 3, 4]);
}

#[test]
fn patches_announce_themselves() {
    let mut answer = vec![0xE7, 0xCA, 0xFE, 3, 0x42, 0];
    answer.extend(b"MONSMOD\0");
    let patch = parse_patch_info(&answer).unwrap();
    assert_eq!(patch.version, 3);
    assert_eq!(patch.name, "MONSMOD");
    assert!(patch.has_led_stream());
    assert!(patch.has_anim_engine());
    answer[2] = 0;
    assert!(parse_patch_info(&answer).is_none());
    // A name that is no text keeps its readable part.
    let odd = parse_patch_info(&[0, 0xCA, 0xFE, 1, 0, 0, b'A', 0xFF]).unwrap();
    assert_eq!(odd.name, "A\u{FFFD}");
}

#[test]
fn animations_are_defined_and_assigned_in_parts() {
    let kb = keyboard();
    let id = DefId::from_u8(3).unwrap();
    assert!(DefId::from_u8(8).is_none());
    let keyframes: Vec<(u16, u16, u8)> = (0..6u16).map(|i| (i, i * 2, 0)).collect();
    let (r, asked) = drive(|r| kb.anim_define(id, 1, -2, 50, &keyframes, r), done);
    assert_eq!(r, Ok(()));
    match &asked[1] {
        Request::AnimDefineExt { keyframes, .. } => {
            assert_eq!(*keyframes, vec![(4, 8, 0), (5, 10, 0)]);
        }
        other => panic!("{other:?}"),
    }
    let keys: Vec<(LedPos, u8)> = (0..30u8).map(|i| (LedPos { pos: i }, i)).collect();
    let (_, asked) = drive(|r| kb.anim_assign(id, &keys, r), done);
    assert_eq!(
        asked[1],
        Request::AnimAssign {
            def_id: id,
            keys: vec![(29, 29)],
        }
    );
    let (_, asked) = drive(|r| kb.anim_clear(r), done);
    assert_eq!(asked, vec![Request::AnimClear]);
}

#[test]
fn unknown_animation_slots_are_dropped() {
    let kb = keyboard();
    let slot = |id: u8| AnimSlot {
        id,
        num_kf: 2,
        flags: 5,
        priority: 0,
        key_count: 1,
        duration_ticks: 9,
    };
    let report = AnimReport {
        active_count: 2,
        frame_count: 77,
        overlay_active: true,
        defs: vec![slot(1), slot(200), slot(7)],
    };
    match kb.anim_query(Some(AnimReply::Report(report))) {
        Step::Done(Ok(Some(status))) => {
            let ids: Vec<u8> = status.defs.iter().map(|d| d.id.get()).collect();
            assert_eq!(ids, vec![1, 7]);
            assert!(status.defs[0].is_one_shot());
            assert!(status.defs[0].is_rainbow());
            assert_eq!(status.frame_count, 77);
        }
        other => panic!("{other:?}"),
    }
    assert_eq!(kb.anim_query(Some(AnimReply::Invalid)), Step::Done(Ok(None)));
    let id = DefId::from_u8(0).unwrap();
    assert_eq!(
        kb.anim_query_keys(id, Some(Ok(vec![(4, 5)]))),
        Step::Done(Ok(vec![(StripIdx { idx: 4 }, 5)]))
    );
    let lost = KeyboardError::Transport(String::from("x"));
    assert_eq!(kb.anim_query_keys(id, Some(Err(lost))), Step::Done(Ok(Vec::new())));
}

#[test]
fn raw_commands_pass_through() {
    let kb = keyboard();
    assert_eq!(once(|r| kb.query_raw_cmd(0xAA, r), vec![1, 2]), Ok(vec![1, 2]));
    let (_, asked) = drive(|r| kb.send_raw_cmd_fast(0xAB, &[1, 2], r), done);
    assert_eq!(frame(&asked[0]).delivery, Delivery::SendThenWait(0));
    assert_eq!(frame(&asked[0]).data, vec![1, 2]);
    let (_, asked) = drive(|r| kb.reset(r), done);
    assert_eq!(frame(&asked[0]).cmd, 0x02);
}

#[test]
fn dks_settings_are_read_back() {
    let kb = keyboard();
    let mut config = DksConfig::from_parts(
        0x123,
        [0x11, 0x22, 0x33, 0x44],
        [[0; 4], [0, 0, 5, 0], [3, 1, 6, 0], [0, 0, 7, 0]],
    );
    let mut tables = Tables::new();
    let mut layers = vec![vec![0u8; 512]; 4];
    layers[0][8..12].copy_from_slice(&[9, 0, 3, 0]);
    let mut answer = |q: &Request| match q {
        Request::KeyMatrix { key_index, layer, config, .. } => {
            let at = *key_index as usize * 4;
            layers[layer.get() as usize][at..at + 4].copy_from_slice(config);
            Ok(Vec::new())
        }
        Request::Raw(f) if f.cmd == 0x8A => {
            let page = f.data[2] as usize;
            Ok(layers[f.data[3] as usize][page * 64..page * 64 + 64].to_vec())
        }
        other => {
            let reply = tables.answer(other);
            // The packed bytes are written to one table, and read from another.
            tables.bytes[10] = tables.bytes[8].clone();
            reply
        }
    };
    let (r, _) = drive(|r| kb.set_dks_config(2, &config, Some(true), r), &mut answer);
    assert_eq!(r, Ok(()));
    let (r, _) = drive(|r| kb.get_dks_config(2, r), &mut answer);
    // The empty first slot reads as the key's output from before.
    config = DksConfig::from_parts(
        0x123,
        [0x11, 0x22, 0x33, 0x44],
        [[9, 0, 3, 0], [0, 0, 5, 0], [3, 1, 6, 0], [0, 0, 7, 0]],
    );
    assert_eq!(r, Ok(config));
    let (r, _) = drive(|r| kb.get_dks_travels(r), &mut answer);
    assert_eq!(r, Ok(vec![0, 0, 0x123, 0, 0, 0]));
    let (r, asked) = drive(|r| kb.get_dks_trigger_modes_blob(r), &mut answer);
    assert_eq!(asked.len(), 8);
    let blob = r.unwrap();
    assert_eq!(blob.len(), 512);
    assert_eq!(blob[8..12], [0x11, 0x22, 0x33, 0x44]);
}

#[test]
fn single_dks_values_are_written_and_saved() {
    let kb = keyboard();
    let (r, asked) = drive(|r| kb.set_dks_trigger_point_travel_raw(3, 0x0201, r), done);
    assert_eq!(r, Ok(()));
    assert_eq!(frame(&asked[0]).data, vec![4, 0, 3, 1, 0, 0, 0, 1, 2]);
    let (r, asked) = drive(|r| kb.set_dks_trigger_modes(3, [1, 2, 3, 4], r), done);
    assert_eq!(r, Ok(()));
    assert_eq!(frame(&asked[0]).data, vec![8, 0, 3, 1, 0, 0, 0, 1, 2, 3, 4]);
    assert_eq!(frame(&asked[0]).delivery, Delivery::SendThenWait(250));
}

#[test]
fn each_travel_has_its_own_table() {
    let kb = keyboard();
    let depth = TravelDepth::from_raw(0x0102);
    let bytes = [2, 1, 2, 1, 2, 1, 2, 1, 2, 1, 2, 1];
    let check = |asked: Vec<Request>, table: u8| {
        assert_eq!(asked.len(), 1);
        let mut data = vec![table, 1, 0, 1, 0, 0, 0];
        data.extend_from_slice(&bytes);
        assert_eq!(frame(&asked[0]).data, data);
    };
    check(drive(|r| kb.set_release_all(depth, r), done).1, 1);
    check(drive(|r| kb.set_rt_press_all(depth, r), done).1, 2);
    check(drive(|r| kb.set_rt_lift_all(depth, r), done).1, 3);
    check(drive(|r| kb.set_bottom_deadzone_all(depth, r), done).1, 6);
    check(drive(|r| kb.set_top_deadzone_all(depth, r), done).1, 0xFB);
    let mode = ModeByte {
        base: KeyMode { code: 3 },
        rapid_trigger: true,
    };
    let (r, asked) = drive(|r| kb.set_mode_all(mode, r), done);
    assert_eq!(r, Ok(()));
    assert_eq!(frame(&asked[0]).data, vec![7, 3, 3, 3, 3, 3, 3]);
}

#[test]
fn calibration_starts_stops_and_tells_progress() {
    let kb = keyboard();
    let (_, asked) = drive(|r| kb.calibrate_min(true, r), done);
    assert_eq!((frame(&asked[0]).cmd, frame(&asked[0]).data.clone()), (0x1C, vec![1]));
    let (_, asked) = drive(|r| kb.calibrate_max(false, r), done);
    assert_eq!((frame(&asked[0]).cmd, frame(&asked[0]).data.clone()), (0x1E, vec![0]));
    let (r, asked) = drive(
        |r| kb.get_calibration_progress(2, r),
        |_| Ok(vec![0x2C, 1, 7, 0, 9]),
    );
    assert_eq!(r, Ok(vec![300, 7]));
    assert_eq!(frame(&asked[0]).data, vec![0xFE, 1, 2]);
}

#[test]
fn swapped_keys_get_each_other_s_usage() {
    let kb = keyboard();
    let (r, asked) = drive(|r| kb.swap_keys(Profile::Second, 3, 40, 5, 41, r), done);
    assert_eq!(r, Ok(()));
    let written: Vec<(u8, [u8; 4])> = asked
        .iter()
        .map(|q| match q {
            Request::KeyMatrix { profile, key_index, config, .. } => {
                assert_eq!(*profile, Profile::Second);
                (*key_index, *config)
            }
            other => panic!("no key write: {other:?}"),
        })
        .collect();
    assert_eq!(written, vec![(3, [0, 0, 41, 0]), (5, [0, 0, 40, 0])]);
}

#[test]
fn a_text_macro_holds_the_strokes_of_its_characters() {
    let kb = keyboard();
    let strokes = [Some((4, false)), None, Some((5, true))];
    let (r, asked) = drive(
        |r| kb.set_text_macro(MacroSlot { slot: 2 }, &strokes, 10, 1, r),
        done,
    );
    assert_eq!(r, Ok(()));
    let events = text_macro_events(&strokes, 10);
    match &asked[0] {
        Request::MacroPage { slot, page, chunk, .. } => {
            assert_eq!(slot.slot, 2);
            assert_eq!(*page, 0);
            let data = encode_macro(&events, 1);
            assert_eq!(chunk[..data.len()], data);
        }
        other => panic!("no macro page: {other:?}"),
    }
}

#[test]
fn side_lights_are_written_and_read_back() {
    let kb = keyboard();
    let wanted = white(5);
    let (r, asked) = drive(|r| kb.set_side_led_params(&wanted, r), done);
    assert_eq!(r, Ok(()));
    assert_eq!(frame(&asked[0]).cmd, 0x08);
    assert_eq!(frame(&asked[0]).data, vec![5, 1, 3, 8, 255, 255, 255]);
    let mut answer = vec![0x88];
    answer.extend_from_slice(&frame(&asked[0]).data);
    assert_eq!(once(|r| kb.get_side_led_params(r), answer), Ok(wanted));
}

#[test]
fn music_modes_carry_their_style() {
    let kb = keyboard();
    let color = Some(RgbColor::new(1, 2, 3));
    let (_, asked) = drive(|r| kb.set_music_viz_mode(21, 3, 9, color, r), done);
    assert_eq!(frame(&asked[0]).data, vec![21, 0, 4, 0x34, 1, 2, 3]);
    let (_, asked) = drive(|r| kb.set_music_viz_mode(21, 0x12, 1, None, r), done);
    assert_eq!(frame(&asked[0]).data, vec![21, 0, 1, 0x28, 0, 0, 0]);
}

#[test]
fn streaming_fills_shows_and_ends() {
    let kb = keyboard();
    let (_, asked) = drive(|r| kb.stream_led_page(2, &[9, 8, 7], r), done);
    let f = frame(&asked[0]);
    assert_eq!(f.cmd, 0xE8);
    assert_eq!(f.data.len(), 55);
    assert_eq!(f.data[..5], [2, 9, 8, 7, 0]);
    assert_eq!(f.delivery, Delivery::SendThenWait(0));
    let (_, asked) = drive(|r| kb.stream_led_commit(r), done);
    assert_eq!(frame(&asked[0]).data, vec![0xFF]);
    let (_, asked) = drive(|r| kb.stream_led_release(r), done);
    assert_eq!(frame(&asked[0]).data, vec![0xFE]);
}

#[test]
fn dongles_tell_their_own_patches() {
    let kb = keyboard();
    assert!(matches!(
        kb.get_dongle_patch_info(None),
        Step::Ask(Request::DonglePatchInfo)
    ));
    assert!(matches!(kb.get_dongle_patch_info(Some(Ok(None))), Step::Done(Ok(None))));
    let lost = KeyboardError::Transport(String::from("lost"));
    match kb.get_dongle_patch_info(Some(Err(lost.clone()))) {
        Step::Done(Err(e)) => assert_eq!(e, lost),
        _ => panic!("the failure is passed on"),
    }
    match kb.get_dongle_patch_info(Some(Ok(Some(vec![0, 0xCA, 0xFE, 4, 2, 0, b'D', 0])))) {
        Step::Done(Ok(Some(p))) => {
            assert_eq!((p.version, p.capabilities, p.name.as_str()), (4, 2, "D"));
        }
        _ => panic!("the patch is told"),
    }
    let id = DefId::from_u8(5).unwrap();
    let (_, asked) = drive(|r| kb.anim_cancel(id, r), done);
    assert_eq!(asked, vec![Request::AnimCancel { def_id: id }]);
}

#[test]
fn raw_commands_carry_their_data() {
    let kb = keyboard();
    let (r, asked) = drive(|r| kb.query_raw_cmd_data(0x42, &[1, 2], r), |_| Ok(vec![0x42, 9]));
    assert_eq!(r, Ok(vec![0x42, 9]));
    assert_eq!(frame(&asked[0]).data, vec![1, 2]);
    assert_eq!(frame(&asked[0]).delivery, Delivery::Query);
    let (r, asked) = drive(|r| kb.send_raw_cmd(0x43, &[3], r), done);
    assert_eq!(r, Ok(()));
    assert_eq!((frame(&asked[0]).cmd, frame(&asked[0]).data.clone()), (0x43, vec![3]));
    assert_eq!(frame(&asked[0]).checksum, ChecksumType::Bit7);
    assert_eq!(kb.matrix_positions(), 6);
    assert!(!kb.is_dongle());
}

#[test]
fn basic_settings_are_read_back() {
    let kb = keyboard();
    let echo = |asked: &[Request], cmd: u8| {
        let mut answer = vec![cmd];
        answer.extend_from_slice(&frame(&asked[0]).data);
        answer
    };
    let (_, asked) = drive(|r| kb.set_profile(Profile::Third, r), done);
    assert_eq!(once(|r| kb.get_profile(r), echo(&asked, 0x84)), Ok(Profile::Third));
    let (_, asked) = drive(|r| kb.set_debounce(17, r), done);
    assert_eq!(once(|r| kb.get_debounce(r), echo(&asked, 0x86)), Ok(17));
    let rate = PollingRate { code: 3, hz: 1000 };
    let (_, asked) = drive(|r| kb.set_polling_rate(rate, r), done);
    assert_eq!(once(|r| kb.get_polling_rate(r), echo(&asked, 0x83)), Ok(rate));
}
