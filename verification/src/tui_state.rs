//! State of the terminal interface, and how results of background work change it.

use crate::connect::ConnectedDevice;
use crate::device_db::PollingRateSupport;
use crate::keymap::{KeyRow, LoadStage};
use crate::led::{LedParams, DAZZLE_ON, LED_MODE_MAX};
use crate::magnetism::TriggerSettings;
use crate::patches::AnimStatus;
use crate::protocol::Profile;
use crate::select::DeviceLabel;
use crate::settings::{
    BatteryInfo, FirmwareVersion, KeyboardOptions, Precision, SleepTimeSettings,
};
use crate::text::{dec, push_dec};
use vstd::prelude::*;

verus! {

/// What is said of a keyboard that sleeps.
pub const SLEEPING: &'static str = "Keyboard sleeping - press a key to wake before querying";

/// Where the battery level comes from.
#[derive(Debug, Clone, PartialEq, Eq)]
pub enum BatterySource {
    /// A power supply of the kernel, by its path.
    Kernel(String),
    /// The vendor protocol.
    Vendor,
}

/// Firmware patch, as far as it is shown.
#[derive(Debug, Clone, PartialEq, Eq)]
pub struct PatchInfoData {
    pub name: String,
    pub version: u8,
    pub capabilities: Vec<String>,
}

/// Keyboard options and sleep times, as far as they can be edited.
#[derive(Debug, Clone, Copy, PartialEq, Eq, Structural)]
pub struct EditableOptions {
    pub os_mode: u8,
    pub fn_layer: u8,
    pub anti_mistouch: bool,
    pub rt_stability: u8,
    pub wasd_swap: bool,
    /// Sleep times in seconds, zero for none.
    pub idle_bt: u16,
    pub idle_24g: u16,
    pub deep_bt: u16,
    pub deep_24g: u16,
}

/// How key depths are shown.
#[derive(Debug, Clone, Copy, PartialEq, Eq, Structural)]
pub enum DepthViewMode {
    /// A bar per key.
    BarChart,
    /// A graph over time of the selected keys.
    TimeSeries,
}

/// How key bindings are shown.
#[derive(Debug, Clone, Copy, PartialEq, Eq, Structural)]
pub enum KeyMappingView {
    List,
    Layout,
}

/// How far a group of queries has got.
#[derive(Debug, Clone, Copy, PartialEq, Eq, Structural)]
pub enum LoadState {
    NotLoaded,
    Loading,
    Loaded,
    Error,
}

/// How far each group of queries has got.
#[derive(Debug, Clone, Copy, PartialEq, Eq, Structural)]
pub struct LoadingStates {
    pub usb_version: LoadState,
    pub profile: LoadState,
    pub debounce: LoadState,
    pub polling_rate: LoadState,
    pub led_params: LoadState,
    pub side_led_params: LoadState,
    pub kb_options_info: LoadState,
    pub precision: LoadState,
    pub sleep_time: LoadState,
    pub patch_info: LoadState,
    pub dongle_patch_info: LoadState,
    pub firmware_check: LoadState,
    pub triggers: LoadState,
    pub options: LoadState,
    pub key_mapping: LoadState,
}

impl LoadingStates {
    /// Nothing loaded yet.
    pub open spec fn nothing() -> LoadingStates {
        LoadingStates {
            usb_version: LoadState::NotLoaded,
            profile: LoadState::NotLoaded,
            debounce: LoadState::NotLoaded,
            polling_rate: LoadState::NotLoaded,
            led_params: LoadState::NotLoaded,
            side_led_params: LoadState::NotLoaded,
            kb_options_info: LoadState::NotLoaded,
            precision: LoadState::NotLoaded,
            sleep_time: LoadState::NotLoaded,
            patch_info: LoadState::NotLoaded,
            dongle_patch_info: LoadState::NotLoaded,
            firmware_check: LoadState::NotLoaded,
            triggers: LoadState::NotLoaded,
            options: LoadState::NotLoaded,
            key_mapping: LoadState::NotLoaded,
        }
    }
}

impl Default for LoadingStates {
    fn default() -> (r: Self)
        ensures
            r == LoadingStates::nothing(),
    {
        LoadingStates {
            usb_version: LoadState::NotLoaded,
            profile: LoadState::NotLoaded,
            debounce: LoadState::NotLoaded,
            polling_rate: LoadState::NotLoaded,
            led_params: LoadState::NotLoaded,
            side_led_params: LoadState::NotLoaded,
            kb_options_info: LoadState::NotLoaded,
            precision: LoadState::NotLoaded,
            sleep_time: LoadState::NotLoaded,
            patch_info: LoadState::NotLoaded,
            dongle_patch_info: LoadState::NotLoaded,
            firmware_check: LoadState::NotLoaded,
            triggers: LoadState::NotLoaded,
            options: LoadState::NotLoaded,
            key_mapping: LoadState::NotLoaded,
        }
    }
}

/// A group of LEDs, as it is shown.
#[derive(Debug, Clone, Copy, PartialEq, Eq, Structural)]
pub struct LedInfo {
    pub mode: u8,
    pub brightness: u8,
    pub speed: u8,
    pub dazzle: bool,
    pub r: u8,
    pub g: u8,
    pub b: u8,
}

impl LedInfo {
    /// Dark.
    pub open spec fn zero() -> LedInfo {
        LedInfo { mode: 0, brightness: 0, speed: 0, dazzle: false, r: 0, g: 0, b: 0 }
    }

    /// What is shown of LED parameters.
    pub open spec fn of(p: LedParams) -> LedInfo {
        LedInfo {
            mode: p.mode.number(),
            brightness: p.brightness,
            speed: p.speed,
            dazzle: p.direction == DAZZLE_ON,
            r: p.color.r,
            g: p.color.g,
            b: p.color.b,
        }
    }

    /// What is shown of LED parameters.
    pub fn from_params(p: LedParams) -> (r: LedInfo)
        ensures
            r == LedInfo::of(p),
            r.mode <= LED_MODE_MAX,
    {
        LedInfo {
            mode: p.mode.as_u8(),
            brightness: p.brightness,
            speed: p.speed,
            dazzle: p.direction == DAZZLE_ON,
            r: p.color.r,
            g: p.color.g,
            b: p.color.b,
        }
    }
}

/// The settings that the device tab shows.
#[derive(Debug, Clone, Copy, PartialEq, Eq, Structural)]
pub struct FirmwareSettings {
    pub device_id: u32,
    pub version: u16,
    pub profile: Profile,
    pub debounce: u8,
    pub polling_rate: u16,
    pub led: LedInfo,
    pub side: LedInfo,
    pub fn_layer: u8,
    pub wasd_swap: bool,
    pub sleep_seconds: u16,
}

impl FirmwareSettings {
    /// Nothing known.
    pub open spec fn unknown() -> FirmwareSettings {
        FirmwareSettings {
            device_id: 0,
            version: 0,
            profile: Profile::First,
            debounce: 0,
            polling_rate: 0,
            led: LedInfo::zero(),
            side: LedInfo::zero(),
            fn_layer: 0,
            wasd_swap: false,
            sleep_seconds: 0,
        }
    }
}

impl Default for FirmwareSettings {
    fn default() -> (r: Self)
        ensures
            r == FirmwareSettings::unknown(),
    {
        let dark: LedInfo = LedInfo {
            mode: 0,
            brightness: 0,
            speed: 0,
            dazzle: false,
            r: 0,
            g: 0,
            b: 0,
        };
        FirmwareSettings {
            device_id: 0,
            version: 0,
            profile: Profile::First,
            debounce: 0,
            polling_rate: 0,
            led: dark,
            side: dark,
            fn_layer: 0,
            wasd_swap: false,
            sleep_seconds: 0,
        }
    }
}

/// What a firmware check found.
#[derive(Debug, Clone, PartialEq, Eq)]
pub struct FirmwareCheckResult {
    pub message: String,
}

/// A desktop notification: id, application, summary, effect, priority.
pub struct Notification {
    pub id: u64,
    pub app: String,
    pub summary: String,
    pub effect: String,
    pub priority: i32,
}

/// State of the key mapping tab.
pub struct KeyMappingTab {
    pub rows: Vec<KeyRow>,
    /// Which table a load in flight is on.
    pub progress: Option<LoadStage>,
    /// Page counter when the load started.
    pub pages_start: u64,
    pub selected: usize,
    pub view: KeyMappingView,
    pub filter_open: bool,
    pub filter_field: usize,
}

/// State of the notification tab.
pub struct NotifyTab {
    /// Whether the program has this tab.
    pub enabled: bool,
    pub effects_loaded: bool,
    pub effect_names: Vec<String>,
    pub selected_effect: usize,
    /// Where effects are read from.
    pub effects_path: String,
    pub daemon_running: bool,
    pub daemon_error: Option<String>,
    pub notifications: Vec<Notification>,
    /// Whether the list of effects has the focus.
    pub effect_list_focused: bool,
}

/// A device that can be picked.
pub struct PickerItem {
    pub label: DeviceLabel,
    pub responsive: bool,
}

/// State of the device picker.
pub struct DevicePicker {
    pub open: bool,
    pub items: Vec<PickerItem>,
    pub selected: usize,
}

/// Which color a hex input is for.
#[derive(Debug, Clone, Copy, PartialEq, Eq, Structural)]
pub enum HexColorTarget {
    MainLed,
    SideLed,
}

/// State of the hex color input.
pub struct HexInput {
    pub editing: bool,
    pub input: String,
    pub target: HexColorTarget,
}

/// Which pickers the trigger editor has open.
#[derive(Debug, Clone, Copy, PartialEq, Eq, Structural)]
pub struct ModalFocus {
    pub mode_picker: bool,
    pub key_picker: bool,
    pub output_picker: bool,
    pub dks_action_picker: bool,
}

/// What an entry of the device tab is.
#[derive(Debug, Clone, Copy, PartialEq, Eq, Structural)]
pub enum InfoTag {
    ReadOnly,
    Device,
    FirmwareCheck,
    Profile,
    Debounce,
    PollingRate,
    LedMode,
    LedBrightness,
    LedSpeed,
    LedRed,
    LedGreen,
    LedBlue,
    LedColorHex,
    LedDazzle,
    SideMode,
    SideBrightness,
    SideSpeed,
    SideRed,
    SideGreen,
    SideBlue,
    SideColorHex,
    SideDazzle,
    FnLayer,
    WasdSwap,
    AntiMistouch,
    RtStability,
    SleepIdleBt,
    SleepIdle24g,
    SleepDeepBt,
    SleepDeep24g,
    AudioDevice,
    AudioVizStyle,
    AudioRate,
    ScreenRate,
    ScreenRegion,
    ScreenTestSwatch,
    ScreenGainR,
    ScreenGainG,
    ScreenGainB,
    ScreenGammaR,
    ScreenGammaG,
    ScreenGammaB,
    ScreenSaturation,
    UserPicLayer,
}

/// State of the terminal interface.
pub struct App {
    /// Device that was asked for: index, transport name or path.
    pub device_selector: Option<String>,
    pub info: FirmwareSettings,
    pub tab: usize,
    pub selected: usize,
    pub depth_monitoring: bool,
    pub status_msg: String,
    pub connected: bool,
    /// Counts up with every connection. Results of an earlier one are discarded.
    pub device_generation: u64,
    pub device: ConnectedDevice,
    pub triggers: Option<TriggerSettings>,
    pub trigger_scroll: usize,
    pub precision: Precision,
    pub options: Option<EditableOptions>,
    pub sleep_settings: Option<SleepTimeSettings>,
    pub key_mapping: KeyMappingTab,
    pub depth_view_mode: DepthViewMode,
    pub depth_cursor: usize,
    /// Number of keys whose depth is tracked.
    pub depth_keys: usize,
    /// Keys that moved of late, each once.
    pub active_keys: Vec<usize>,
    /// Keys that the time series shows, each once.
    pub selected_keys: Vec<usize>,
    pub patch_info: Option<PatchInfoData>,
    pub dongle_patch_info: Option<PatchInfoData>,
    pub battery: Option<BatteryInfo>,
    pub battery_source: Option<BatterySource>,
    pub show_help: bool,
    pub picker: DevicePicker,
    pub loading: LoadingStates,
    pub hex: HexInput,
    pub firmware_check: Option<FirmwareCheckResult>,
    /// The trigger editor, if it is open.
    pub modal: Option<ModalFocus>,
    /// What each entry of the device tab is.
    pub info_tags: Vec<InfoTag>,
    pub notify: NotifyTab,
    /// LED mode from before a reactive mode was entered.
    pub reactive_prev_mode: Option<u8>,
    /// Selected layer of the user picture.
    pub userpic_layer: u8,
    pub anim_snapshot: Option<AnimStatus>,
}

/// A result of background work.
pub enum AsyncResult {
    DeviceIdAndVersion(Result<(u32, FirmwareVersion), String>),
    Profile(Result<Profile, String>),
    Debounce(Result<u8, String>),
    PollingRate(Result<u16, String>),
    LedParams(Result<LedParams, String>),
    SideLedParams(Result<LedParams, String>),
    KbOptions(Result<KeyboardOptions, String>),
    Precision(Result<Precision, String>),
    SleepTime(Result<SleepTimeSettings, String>),
    PatchInfo(Result<PatchInfoData, String>),
    DonglePatchInfo(Result<PatchInfoData, String>),
    FirmwareCheck(FirmwareCheckResult),
    Triggers(Result<TriggerSettings, String>),
    Options(Result<KeyboardOptions, String>),
    KeyRows(Result<Vec<KeyRow>, String>),
    KeyRowsStage(LoadStage),
    Battery(Result<BatteryInfo, String>),
    /// A setting was written: its name, and how that went.
    SetComplete(String, Result<(), String>),
    /// The names of the effects that were read.
    NotifyEffectsLoaded(Result<Vec<String>, String>),
    NotifyDaemonStopped(Result<(), String>),
    NotifyList(Vec<Notification>),
    AnimStatus(Result<AnimStatus, String>),
}

/// A result with the generation of the device that it was produced for.
pub struct GenerationalResult {
    pub generation: u64,
    pub result: AsyncResult,
}

/// Options and sleep times together.
pub open spec fn editable(o: KeyboardOptions, s: SleepTimeSettings) -> EditableOptions {
    EditableOptions {
        os_mode: o.os_mode,
        fn_layer: o.fn_layer,
        anti_mistouch: o.anti_mistouch,
        rt_stability: o.rt_stability,
        wasd_swap: o.wasd_swap,
        idle_bt: s.idle_bt,
        idle_24g: s.idle_24g,
        deep_bt: s.deep_bt,
        deep_24g: s.deep_24g,
    }
}

/// Options with new sleep times.
pub open spec fn with_sleep(o: EditableOptions, s: SleepTimeSettings) -> EditableOptions {
    EditableOptions {
        idle_bt: s.idle_bt,
        idle_24g: s.idle_24g,
        deep_bt: s.deep_bt,
        deep_24g: s.deep_24g,
        ..o
    }
}

/// A selection in a list of `len` entries: the last entry if it lies behind that.
pub open spec fn kept_in(selected: usize, len: nat) -> usize {
    if selected < len {
        selected
    } else if len == 0 {
        0
    } else {
        (len - 1) as usize
    }
}

/// The state after a result, but for the status line.
pub open spec fn applied(app: App, result: AsyncResult) -> App {
    let l = app.loading;
    match result {
        AsyncResult::DeviceIdAndVersion(Ok((id, v))) => App {
            info: FirmwareSettings { device_id: id, version: v.raw, ..app.info },
            loading: LoadingStates { usb_version: LoadState::Loaded, ..l },
            ..app
        },
        AsyncResult::DeviceIdAndVersion(Err(_)) => App {
            loading: LoadingStates { usb_version: LoadState::Error, ..l },
            ..app
        },
        AsyncResult::Profile(Ok(p)) => App {
            info: FirmwareSettings { profile: p, ..app.info },
            loading: LoadingStates { profile: LoadState::Loaded, ..l },
            ..app
        },
        AsyncResult::Profile(Err(_)) => App {
            loading: LoadingStates { profile: LoadState::Error, ..l },
            ..app
        },
        AsyncResult::Debounce(Ok(d)) => App {
            info: FirmwareSettings { debounce: d, ..app.info },
            loading: LoadingStates { debounce: LoadState::Loaded, ..l },
            ..app
        },
        AsyncResult::Debounce(Err(_)) => App {
            loading: LoadingStates { debounce: LoadState::Error, ..l },
            ..app
        },
        AsyncResult::PollingRate(Ok(rate)) => App {
            info: FirmwareSettings { polling_rate: rate, ..app.info },
            loading: LoadingStates { polling_rate: LoadState::Loaded, ..l },
            ..app
        },
        AsyncResult::PollingRate(Err(_)) => App {
            loading: LoadingStates { polling_rate: LoadState::Error, ..l },
            ..app
        },
        AsyncResult::LedParams(Ok(p)) => App {
            info: FirmwareSettings { led: LedInfo::of(p), ..app.info },
            loading: LoadingStates { led_params: LoadState::Loaded, ..l },
            ..app
        },
        AsyncResult::LedParams(Err(_)) => App {
            loading: LoadingStates { led_params: LoadState::Error, ..l },
            ..app
        },
        AsyncResult::SideLedParams(Ok(p)) => App {
            info: FirmwareSettings { side: LedInfo::of(p), ..app.info },
            loading: LoadingStates { side_led_params: LoadState::Loaded, ..l },
            ..app
        },
        AsyncResult::SideLedParams(Err(_)) => App {
            loading: LoadingStates { side_led_params: LoadState::Error, ..l },
            ..app
        },
        AsyncResult::KbOptions(Ok(o)) => App {
            info: FirmwareSettings { fn_layer: o.fn_layer, wasd_swap: o.wasd_swap, ..app.info },
            loading: LoadingStates { kb_options_info: LoadState::Loaded, ..l },
            ..app
        },
        AsyncResult::KbOptions(Err(_)) => App {
            loading: LoadingStates { kb_options_info: LoadState::Error, ..l },
            ..app
        },
        AsyncResult::Precision(Ok(p)) => App {
            precision: p,
            loading: LoadingStates { precision: LoadState::Loaded, ..l },
            ..app
        },
        AsyncResult::Precision(Err(_)) => App {
            loading: LoadingStates { precision: LoadState::Error, ..l },
            ..app
        },
        AsyncResult::SleepTime(Ok(s)) => App {
            info: FirmwareSettings { sleep_seconds: s.idle_bt, ..app.info },
            sleep_settings: Some(s),
            options: match app.options {
                Some(o) => Some(with_sleep(o, s)),
                None => None,
            },
            loading: LoadingStates { sleep_time: LoadState::Loaded, ..l },
            ..app
        },
        AsyncResult::SleepTime(Err(_)) => App {
            loading: LoadingStates { sleep_time: LoadState::Error, ..l },
            ..app
        },
        AsyncResult::PatchInfo(Ok(data)) => App {
            patch_info: Some(data),
            loading: LoadingStates { patch_info: LoadState::Loaded, ..l },
            ..app
        },
        AsyncResult::PatchInfo(Err(_)) => App {
            loading: LoadingStates { patch_info: LoadState::Error, ..l },
            ..app
        },
        AsyncResult::DonglePatchInfo(Ok(data)) => App {
            dongle_patch_info: Some(data),
            loading: LoadingStates { dongle_patch_info: LoadState::Loaded, ..l },
            ..app
        },
        AsyncResult::DonglePatchInfo(Err(_)) => App {
            loading: LoadingStates { dongle_patch_info: LoadState::Loaded, ..l },
            ..app
        },
        AsyncResult::FirmwareCheck(found) => App {
            firmware_check: Some(found),
            loading: LoadingStates { firmware_check: LoadState::Loaded, ..l },
            ..app
        },
        AsyncResult::Triggers(Ok(t)) => App {
            triggers: Some(t),
            loading: LoadingStates { triggers: LoadState::Loaded, ..l },
            ..app
        },
        AsyncResult::Triggers(Err(_)) => App {
            loading: LoadingStates { triggers: LoadState::Error, ..l },
            ..app
        },
        AsyncResult::Options(Ok(o)) => App {
            options: Some(
                editable(
                    o,
                    match app.sleep_settings {
                        Some(s) => s,
                        None => SleepTimeSettings::standard(),
                    },
                ),
            ),
            loading: LoadingStates { options: LoadState::Loaded, ..l },
            ..app
        },
        AsyncResult::Options(Err(_)) => App {
            loading: LoadingStates { options: LoadState::Error, ..l },
            ..app
        },
        AsyncResult::KeyRowsStage(stage) => App {
            key_mapping: KeyMappingTab { progress: Some(stage), ..app.key_mapping },
            ..app
        },
        AsyncResult::KeyRows(Ok(rows)) => App {
            key_mapping: KeyMappingTab {
                progress: None,
                rows,
                selected: kept_in(app.key_mapping.selected, rows@.len()),
                ..app.key_mapping
            },
            loading: LoadingStates { key_mapping: LoadState::Loaded, ..l },
            ..app
        },
        AsyncResult::KeyRows(Err(_)) => App {
            key_mapping: KeyMappingTab { progress: None, ..app.key_mapping },
            loading: LoadingStates { key_mapping: LoadState::Error, ..l },
            ..app
        },
        AsyncResult::SetComplete(_, _) => app,
        AsyncResult::Battery(Ok(b)) => App { battery: Some(b), ..app },
        AsyncResult::Battery(Err(_)) => app,
        AsyncResult::NotifyEffectsLoaded(Ok(names)) => App {
            notify: NotifyTab {
                effect_names: names,
                effects_loaded: true,
                selected_effect: 0,
                ..app.notify
            },
            ..app
        },
        AsyncResult::NotifyEffectsLoaded(Err(_)) => app,
        AsyncResult::NotifyDaemonStopped(Ok(())) => App {
            notify: NotifyTab { daemon_running: false, ..app.notify },
            ..app
        },
        AsyncResult::NotifyDaemonStopped(Err(e)) => App {
            notify: NotifyTab { daemon_running: false, daemon_error: Some(e), ..app.notify },
            ..app
        },
        AsyncResult::NotifyList(list) => App {
            notify: NotifyTab { notifications: list, ..app.notify },
            ..app
        },
        AsyncResult::AnimStatus(Ok(s)) => App { anim_snapshot: Some(s), ..app },
        AsyncResult::AnimStatus(Err(_)) => App { anim_snapshot: None, ..app },
    }
}

/// The status line after a result, if it says something.
pub open spec fn told(app: App, result: AsyncResult) -> Option<Seq<char>> {
    match result {
        AsyncResult::FirmwareCheck(found) => Some(found.message@),
        AsyncResult::Triggers(Ok(_)) => Some("Trigger settings loaded"@),
        AsyncResult::Triggers(Err(_)) => Some("Failed to load trigger settings"@),
        AsyncResult::Options(Ok(_)) => Some("Keyboard options loaded"@),
        AsyncResult::Options(Err(_)) => Some("Failed to load options"@),
        AsyncResult::KeyRows(Ok(rows)) => Some(dec(rows@.len()) + " keys loaded"@),
        AsyncResult::KeyRows(Err(e)) => Some("Failed to load key mapping: "@ + e@),
        AsyncResult::SetComplete(field, Ok(())) => Some(field@ + " updated"@),
        AsyncResult::SetComplete(field, Err(e)) => Some(
            "Failed to set "@ + field@ + ": "@ + e@,
        ),
        AsyncResult::Battery(Err(e)) => Some("Battery read failed: "@ + e@),
        AsyncResult::NotifyEffectsLoaded(Ok(names)) => Some(
            "Loaded "@ + dec(names@.len()) + " effects from "@ + app.notify.effects_path@,
        ),
        AsyncResult::NotifyEffectsLoaded(Err(e)) => Some("Failed to load effects: "@ + e@),
        AsyncResult::NotifyDaemonStopped(Ok(())) => Some("Notify daemon stopped"@),
        AsyncResult::NotifyDaemonStopped(Err(e)) => Some("Daemon error: "@ + e@),
        _ => None,
    }
}

/// Whether `new` is `expected` but for the status line, which says `text`, or what it said
/// before if there is none.
pub open spec fn shows(new: App, expected: App, text: Option<Seq<char>>) -> bool {
    &&& new == (App { status_msg: new.status_msg, ..expected })
    &&& match text {
        Some(t) => new.status_msg@ == t,
        None => new.status_msg == expected.status_msg,
    }
}

/// The titles of the tabs.
pub open spec fn tab_titles(notify: bool) -> Seq<Seq<char>> {
    let three = seq!["Device Info"@, "Key Depth"@, "Key Mapping"@];
    if notify {
        three.push("Notify"@)
    } else {
        three
    }
}

/// Two texts, one behind the other.
pub fn two(a: &str, b: &str) -> (r: String)
    ensures
        r@ == a@ + b@,
{
    let mut out: String = a.to_owned();
    out.append(b);
    out
}

impl App {
    /// What holds at any time: the values that the interface counts up stay in range.
    pub open spec fn wf(self) -> bool {
        &&& self.info.led.mode <= LED_MODE_MAX
        &&& self.info.side.mode <= LED_MODE_MAX
        &&& self.userpic_layer < 4
        &&& self.key_mapping.filter_field <= 3
        &&& self.tab < self.tabs()
        &&& self.reactive_prev_mode matches Some(m) ==> m <= LED_MODE_MAX
        &&& self.active_keys@.no_duplicates()
        &&& self.selected_keys@.no_duplicates()
    }

    /// Number of tabs.
    pub open spec fn tabs(self) -> nat {
        tab_titles(self.notify.enabled).len()
    }

    /// The state before anything is connected.
    pub fn new(device_selector: Option<String>, notify_enabled: bool, effects_path: String) -> (r: App)
        ensures
            r.wf(),
            r.device_selector == device_selector,
            r.info == FirmwareSettings::unknown(),
            r.tab == 0,
            r.selected == 0,
            !r.depth_monitoring,
            r.status_msg@ == ""@,
            !r.connected,
            r.device_generation == 0,
            r.device.name@ == ""@,
            r.device.transport_name@ == ""@,
            r.device.key_count == 0,
            r.device.display_key_count == 0,
            !r.device.has_sidelight,
            !r.device.has_magnetism,
            r.device.matrix_size == 0,
            r.device.matrix_key_names@.len() == 0,
            !r.device.is_wireless,
            r.device.polling_rate_support == PollingRateSupport::Unsupported,
            r.device.polling_rates@.len() == 0,
            r.triggers is None,
            r.trigger_scroll == 0,
            r.precision == Precision::Coarse,
            r.options is None,
            r.sleep_settings is None,
            r.key_mapping.rows@.len() == 0,
            r.key_mapping.progress is None,
            r.key_mapping.pages_start == 0,
            r.key_mapping.selected == 0,
            r.key_mapping.view == KeyMappingView::List,
            !r.key_mapping.filter_open,
            r.key_mapping.filter_field == 0,
            r.depth_view_mode == DepthViewMode::BarChart,
            r.depth_cursor == 0,
            r.depth_keys == 0,
            r.active_keys@ == Seq::<usize>::empty(),
            r.selected_keys@ == Seq::<usize>::empty(),
            r.patch_info is None,
            r.dongle_patch_info is None,
            r.battery is None,
            r.battery_source is None,
            !r.show_help,
            !r.picker.open,
            r.picker.items@.len() == 0,
            r.picker.selected == 0,
            r.loading == LoadingStates::nothing(),
            !r.hex.editing,
            r.hex.input@ == ""@,
            r.hex.target == HexColorTarget::MainLed,
            r.firmware_check is None,
            r.modal is None,
            r.info_tags@.len() == 0,
            r.notify.enabled == notify_enabled,
            !r.notify.effects_loaded,
            r.notify.effect_names@.len() == 0,
            r.notify.selected_effect == 0,
            r.notify.effects_path == effects_path,
            !r.notify.daemon_running,
            r.notify.daemon_error is None,
            r.notify.notifications@.len() == 0,
            r.notify.effect_list_focused,
            r.reactive_prev_mode is None,
            r.userpic_layer == 0,
            r.anim_snapshot is None,
    {
        App {
            device_selector,
            info: FirmwareSettings::default(),
            tab: 0,
            selected: 0,
            depth_monitoring: false,
            status_msg: "".to_owned(),
            connected: false,
            device_generation: 0,
            device: ConnectedDevice {
                name: "".to_owned(),
                transport_name: "",
                key_count: 0,
                display_key_count: 0,
                has_sidelight: false,
                has_magnetism: false,
                matrix_size: 0,
                matrix_key_names: Vec::new(),
                is_wireless: false,
                polling_rate_support: PollingRateSupport::Unsupported,
                polling_rates: Vec::new(),
            },
            triggers: None,
            trigger_scroll: 0,
            precision: Precision::default(),
            options: None,
            sleep_settings: None,
            key_mapping: KeyMappingTab {
                rows: Vec::new(),
                progress: None,
                pages_start: 0,
                selected: 0,
                view: KeyMappingView::List,
                filter_open: false,
                filter_field: 0,
            },
            depth_view_mode: DepthViewMode::BarChart,
            depth_cursor: 0,
            depth_keys: 0,
            active_keys: Vec::new(),
            selected_keys: Vec::new(),
            patch_info: None,
            dongle_patch_info: None,
            battery: None,
            battery_source: None,
            show_help: false,
            picker: DevicePicker { open: false, items: Vec::new(), selected: 0 },
            loading: LoadingStates::default(),
            hex: HexInput {
                editing: false,
                input: "".to_owned(),
                target: HexColorTarget::MainLed,
            },
            firmware_check: None,
            modal: None,
            info_tags: Vec::new(),
            notify: NotifyTab {
                enabled: notify_enabled,
                effects_loaded: false,
                effect_names: Vec::new(),
                selected_effect: 0,
                effects_path,
                daemon_running: false,
                daemon_error: None,
                notifications: Vec::new(),
                effect_list_focused: true,
            },
            reactive_prev_mode: None,
            userpic_layer: 0,
            anim_snapshot: None,
        }
    }

    fn take_device_id_and_version(&mut self, result: Result<(u32, FirmwareVersion), String>)
        ensures
            shows(
                *final(self),
                applied(*old(self), AsyncResult::DeviceIdAndVersion(result)),
                told(*old(self), AsyncResult::DeviceIdAndVersion(result)),
            ),
            old(self).wf() ==> final(self).wf(),
    {
        match result {
            Ok((id, version)) => {
                self.info.device_id = id;
                self.info.version = version.raw;
                self.loading.usb_version = LoadState::Loaded;
            },
            Err(_) => {
                self.loading.usb_version = LoadState::Error;
            },
        }
    }

    fn take_profile(&mut self, result: Result<Profile, String>)
        ensures
            shows(
                *final(self),
                applied(*old(self), AsyncResult::Profile(result)),
                told(*old(self), AsyncResult::Profile(result)),
            ),
            old(self).wf() ==> final(self).wf(),
    {
        match result {
            Ok(p) => {
                self.info.profile = p;
                self.loading.profile = LoadState::Loaded;
            },
            Err(_) => {
                self.loading.profile = LoadState::Error;
            },
        }
    }

    fn take_debounce(&mut self, result: Result<u8, String>)
        ensures
            shows(
                *final(self),
                applied(*old(self), AsyncResult::Debounce(result)),
                told(*old(self), AsyncResult::Debounce(result)),
            ),
            old(self).wf() ==> final(self).wf(),
    {
        match result {
            Ok(d) => {
                self.info.debounce = d;
                self.loading.debounce = LoadState::Loaded;
            },
            Err(_) => {
                self.loading.debounce = LoadState::Error;
            },
        }
    }

    fn take_polling_rate(&mut self, result: Result<u16, String>)
        ensures
            shows(
                *final(self),
                applied(*old(self), AsyncResult::PollingRate(result)),
                told(*old(self), AsyncResult::PollingRate(result)),
            ),
            old(self).wf() ==> final(self).wf(),
    {
        match result {
            Ok(rate) => {
                self.info.polling_rate = rate;
                self.loading.polling_rate = LoadState::Loaded;
            },
            Err(_) => {
                self.loading.polling_rate = LoadState::Error;
            },
        }
    }

    fn take_led_params(&mut self, result: Result<LedParams, String>)
        ensures
            shows(
                *final(self),
                applied(*old(self), AsyncResult::LedParams(result)),
                told(*old(self), AsyncResult::LedParams(result)),
            ),
            old(self).wf() ==> final(self).wf(),
    {
        match result {
            Ok(params) => {
                self.info.led = LedInfo::from_params(params);
                self.loading.led_params = LoadState::Loaded;
            },
            Err(_) => {
                self.loading.led_params = LoadState::Error;
            },
        }
    }

    fn take_side_led_params(&mut self, result: Result<LedParams, String>)
        ensures
            shows(
                *final(self),
                applied(*old(self), AsyncResult::SideLedParams(result)),
                told(*old(self), AsyncResult::SideLedParams(result)),
            ),
            old(self).wf() ==> final(self).wf(),
    {
        match result {
            Ok(params) => {
                self.info.side = LedInfo::from_params(params);
                self.loading.side_led_params = LoadState::Loaded;
            },
            Err(_) => {
                self.loading.side_led_params = LoadState::Error;
            },
        }
    }

    fn take_kb_options(&mut self, result: Result<KeyboardOptions, String>)
        ensures
            shows(
                *final(self),
                applied(*old(self), AsyncResult::KbOptions(result)),
                told(*old(self), AsyncResult::KbOptions(result)),
            ),
            old(self).wf() ==> final(self).wf(),
    {
        match result {
            Ok(o) => {
                self.info.fn_layer = o.fn_layer;
                self.info.wasd_swap = o.wasd_swap;
                self.loading.kb_options_info = LoadState::Loaded;
            },
            Err(_) => {
                self.loading.kb_options_info = LoadState::Error;
            },
        }
    }

    fn take_precision(&mut self, result: Result<Precision, String>)
        ensures
            shows(
                *final(self),
                applied(*old(self), AsyncResult::Precision(result)),
                told(*old(self), AsyncResult::Precision(result)),
            ),
            old(self).wf() ==> final(self).wf(),
    {
        match result {
            Ok(precision) => {
                self.precision = precision;
                self.loading.precision = LoadState::Loaded;
            },
            Err(_) => {
                self.loading.precision = LoadState::Error;
            },
        }
    }

    fn take_sleep_time(&mut self, result: Result<SleepTimeSettings, String>)
        ensures
            shows(
                *final(self),
                applied(*old(self), AsyncResult::SleepTime(result)),
                told(*old(self), AsyncResult::SleepTime(result)),
            ),
            old(self).wf() ==> final(self).wf(),
    {
        match result {
            Ok(s) => {
                self.info.sleep_seconds = s.idle_bt;
                self.sleep_settings = Some(s);
                self.loading.sleep_time = LoadState::Loaded;
                if let Some(o) = self.options {
                    self.options = Some(
                        EditableOptions {
                            idle_bt: s.idle_bt,
                            idle_24g: s.idle_24g,
                            deep_bt: s.deep_bt,
                            deep_24g: s.deep_24g,
                            ..o
                        },
                    );
                }
            },
            Err(_) => {
                self.loading.sleep_time = LoadState::Error;
            },
        }
    }

    fn take_patch_info(&mut self, result: Result<PatchInfoData, String>)
        ensures
            shows(
                *final(self),
                applied(*old(self), AsyncResult::PatchInfo(result)),
                told(*old(self), AsyncResult::PatchInfo(result)),
            ),
            old(self).wf() ==> final(self).wf(),
    {
        match result {
            Ok(data) => {
                self.patch_info = Some(data);
                self.loading.patch_info = LoadState::Loaded;
            },
            Err(_) => {
                self.loading.patch_info = LoadState::Error;
            },
        }
    }

    fn take_dongle_patch_info(&mut self, result: Result<PatchInfoData, String>)
        ensures
            shows(
                *final(self),
                applied(*old(self), AsyncResult::DonglePatchInfo(result)),
                told(*old(self), AsyncResult::DonglePatchInfo(result)),
            ),
            old(self).wf() ==> final(self).wf(),
    {
        match result {
            Ok(data) => {
                self.dongle_patch_info = Some(data);
                self.loading.dongle_patch_info = LoadState::Loaded;
            },
            Err(_) => {
                self.loading.dongle_patch_info = LoadState::Loaded;
            },
        }
    }

    fn take_firmware_check(&mut self, result: FirmwareCheckResult)
        ensures
            shows(
                *final(self),
                applied(*old(self), AsyncResult::FirmwareCheck(result)),
                told(*old(self), AsyncResult::FirmwareCheck(result)),
            ),
            old(self).wf() ==> final(self).wf(),
    {
        self.status_msg = result.message.clone();
        self.firmware_check = Some(result);
        self.loading.firmware_check = LoadState::Loaded;
    }

    fn take_triggers(&mut self, result: Result<TriggerSettings, String>)
        ensures
            shows(
                *final(self),
                applied(*old(self), AsyncResult::Triggers(result)),
                told(*old(self), AsyncResult::Triggers(result)),
            ),
            old(self).wf() ==> final(self).wf(),
    {
        match result {
            Ok(triggers) => {
                self.triggers = Some(triggers);
                self.loading.triggers = LoadState::Loaded;
                self.status_msg = "Trigger settings loaded".to_owned();
            },
            Err(_) => {
                self.loading.triggers = LoadState::Error;
                self.status_msg = "Failed to load trigger settings".to_owned();
            },
        }
    }

    fn take_options(&mut self, result: Result<KeyboardOptions, String>)
        ensures
            shows(
                *final(self),
                applied(*old(self), AsyncResult::Options(result)),
                told(*old(self), AsyncResult::Options(result)),
            ),
            old(self).wf() ==> final(self).wf(),
    {
        match result {
            Ok(o) => {
                let s: SleepTimeSettings = match self.sleep_settings {
                    Some(s) => s,
                    None => SleepTimeSettings::default(),
                };
                self.options = Some(
                    EditableOptions {
                        os_mode: o.os_mode,
                        fn_layer: o.fn_layer,
                        anti_mistouch: o.anti_mistouch,
                        rt_stability: o.rt_stability,
                        wasd_swap: o.wasd_swap,
                        idle_bt: s.idle_bt,
                        idle_24g: s.idle_24g,
                        deep_bt: s.deep_bt,
                        deep_24g: s.deep_24g,
                    },
                );
                self.loading.options = LoadState::Loaded;
                self.status_msg = "Keyboard options loaded".to_owned();
            },
            Err(_) => {
                self.loading.options = LoadState::Error;
                self.status_msg = "Failed to load options".to_owned();
            },
        }
    }

    fn take_key_rows_stage(&mut self, result: LoadStage)
        ensures
            shows(
                *final(self),
                applied(*old(self), AsyncResult::KeyRowsStage(result)),
                told(*old(self), AsyncResult::KeyRowsStage(result)),
            ),
            old(self).wf() ==> final(self).wf(),
    {
        self.key_mapping.progress = Some(result);
    }

    fn take_key_rows(&mut self, result: Result<Vec<KeyRow>, String>)
        ensures
            shows(
                *final(self),
                applied(*old(self), AsyncResult::KeyRows(result)),
                told(*old(self), AsyncResult::KeyRows(result)),
            ),
            old(self).wf() ==> final(self).wf(),
    {
        match result {
            Ok(rows) => {
                let n: usize = rows.len();
                self.key_mapping.progress = None;
                self.key_mapping.rows = rows;
                self.loading.key_mapping = LoadState::Loaded;
                if self.key_mapping.selected >= n {
                    self.key_mapping.selected = if n == 0 {
                        0
                    } else {
                        n - 1
                    };
                }
                let mut text: String = "".to_owned();
                proof {
                    reveal_strlit("");
                }
                push_dec(&mut text, n as u64);
                assert(text@ =~= dec(n as nat));
                text.append(" keys loaded");
                self.status_msg = text;
            },
            Err(e) => {
                self.key_mapping.progress = None;
                self.loading.key_mapping = LoadState::Error;
                self.status_msg = two("Failed to load key mapping: ", e.as_str());
            },
        }
    }

    fn take_set_complete(&mut self, field: String, result: Result<(), String>)
        ensures
            shows(
                *final(self),
                applied(*old(self), AsyncResult::SetComplete(field, result)),
                told(*old(self), AsyncResult::SetComplete(field, result)),
            ),
            old(self).wf() ==> final(self).wf(),
    {
        match result {
            Ok(()) => {
                self.status_msg = two(field.as_str(), " updated");
            },
            Err(e) => {
                let mut text: String = two("Failed to set ", field.as_str());
                text.append(": ");
                text.append(e.as_str());
                self.status_msg = text;
            },
        }
    }

    fn take_battery(&mut self, result: Result<BatteryInfo, String>)
        ensures
            shows(
                *final(self),
                applied(*old(self), AsyncResult::Battery(result)),
                told(*old(self), AsyncResult::Battery(result)),
            ),
            old(self).wf() ==> final(self).wf(),
    {
        match result {
            Ok(b) => {
                self.battery = Some(b);
            },
            Err(e) => {
                self.status_msg = two("Battery read failed: ", e.as_str());
            },
        }
    }

    fn take_effects(&mut self, result: Result<Vec<String>, String>)
        ensures
            shows(
                *final(self),
                applied(*old(self), AsyncResult::NotifyEffectsLoaded(result)),
                told(*old(self), AsyncResult::NotifyEffectsLoaded(result)),
            ),
            old(self).wf() ==> final(self).wf(),
    {
        match result {
            Ok(names) => {
                let mut text: String = "Loaded ".to_owned();
                push_dec(&mut text, names.len() as u64);
                text.append(" effects from ");
                text.append(self.notify.effects_path.as_str());
                self.notify.effect_names = names;
                self.notify.effects_loaded = true;
                self.notify.selected_effect = 0;
                self.status_msg = text;
            },
            Err(e) => {
                self.status_msg = two("Failed to load effects: ", e.as_str());
            },
        }
    }

    fn take_daemon_end(&mut self, result: Result<(), String>)
        ensures
            shows(
                *final(self),
                applied(*old(self), AsyncResult::NotifyDaemonStopped(result)),
                told(*old(self), AsyncResult::NotifyDaemonStopped(result)),
            ),
            old(self).wf() ==> final(self).wf(),
    {
        match result {
            Ok(()) => {
                self.notify.daemon_running = false;
                self.status_msg = "Notify daemon stopped".to_owned();
            },
            Err(e) => {
                self.notify.daemon_running = false;
                self.status_msg = two("Daemon error: ", e.as_str());
                self.notify.daemon_error = Some(e);
            },
        }
    }

    fn take_notifications(&mut self, result: Vec<Notification>)
        ensures
            shows(
                *final(self),
                applied(*old(self), AsyncResult::NotifyList(result)),
                told(*old(self), AsyncResult::NotifyList(result)),
            ),
            old(self).wf() ==> final(self).wf(),
    {
        self.notify.notifications = result;
    }

    fn take_anim_status(&mut self, result: Result<AnimStatus, String>)
        ensures
            shows(
                *final(self),
                applied(*old(self), AsyncResult::AnimStatus(result)),
                told(*old(self), AsyncResult::AnimStatus(result)),
            ),
            old(self).wf() ==> final(self).wf(),
    {
        match result {
            Ok(s) => {
                self.anim_snapshot = Some(s);
            },
            Err(_) => {
                self.anim_snapshot = None;
            },
        }
    }

    /// Take in a result of background work.
    pub fn process_async_result(&mut self, result: AsyncResult)
        ensures
            shows(*final(self), applied(*old(self), result), told(*old(self), result)),
            old(self).wf() ==> final(self).wf(),
    {
        match result {
            AsyncResult::DeviceIdAndVersion(result) => self.take_device_id_and_version(result),
            AsyncResult::Profile(result) => self.take_profile(result),
            AsyncResult::Debounce(result) => self.take_debounce(result),
            AsyncResult::PollingRate(result) => self.take_polling_rate(result),
            AsyncResult::LedParams(result) => self.take_led_params(result),
            AsyncResult::SideLedParams(result) => self.take_side_led_params(result),
            AsyncResult::KbOptions(result) => self.take_kb_options(result),
            AsyncResult::Precision(result) => self.take_precision(result),
            AsyncResult::SleepTime(result) => self.take_sleep_time(result),
            AsyncResult::PatchInfo(result) => self.take_patch_info(result),
            AsyncResult::DonglePatchInfo(result) => self.take_dongle_patch_info(result),
            AsyncResult::FirmwareCheck(result) => self.take_firmware_check(result),
            AsyncResult::Triggers(result) => self.take_triggers(result),
            AsyncResult::Options(result) => self.take_options(result),
            AsyncResult::KeyRowsStage(result) => self.take_key_rows_stage(result),
            AsyncResult::KeyRows(result) => self.take_key_rows(result),
            AsyncResult::SetComplete(field, result) => self.take_set_complete(field, result),
            AsyncResult::Battery(result) => self.take_battery(result),
            AsyncResult::NotifyEffectsLoaded(result) => self.take_effects(result),
            AsyncResult::NotifyDaemonStopped(result) => self.take_daemon_end(result),
            AsyncResult::NotifyList(result) => self.take_notifications(result),
            AsyncResult::AnimStatus(result) => self.take_anim_status(result),
        }
    }
}

} // verus!
