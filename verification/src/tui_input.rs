//! What keys and clicks do in the terminal interface.

use crate::led::{speed_to_wire, wire_speed, LED_MODE_MAX};
use crate::protocol::Profile;
use crate::spinner::{
    debounce, debounce_spinner, fn_layer, fn_layer_spinner, level, level_spinner, rgb, rgb_spinner,
    rt_stability, rt_stability_spinner, sleep_time, sleep_time_spinner, SpinnerConfig,
};
use crate::text::{dec, push_dec, push_hex_digit};
use crate::tui_flow::{fronted, tab_entered, tab_loads, TabLoads};
use crate::tui_state::{
    shows, tab_titles, two, App, DepthViewMode, DevicePicker, EditableOptions, FirmwareSettings,
    HexColorTarget, HexInput, InfoTag, KeyMappingTab, KeyMappingView, ModalFocus,
};
use vstd::prelude::*;

verus! {

/// A key of the terminal.
#[derive(Debug, Clone, Copy, PartialEq, Eq, Structural)]
pub enum KeyCode {
    Char(char),
    Up,
    Down,
    Left,
    Right,
    Enter,
    Esc,
    Tab,
    BackTab,
    Backspace,
    PageUp,
    PageDown,
    F(u8),
    Other,
}

/// A key press.
#[derive(Debug, Clone, Copy, PartialEq, Eq, Structural)]
pub struct KeyPress {
    pub code: KeyCode,
    pub shift: bool,
    pub control: bool,
    pub alt: bool,
}

/// A picker of the trigger editor.
#[derive(Debug, Clone, Copy, PartialEq, Eq, Structural)]
pub enum PickerKind {
    Mode,
    Key,
    Output,
    DksAction,
}

/// What the trigger editor is to do.
#[derive(Debug, Clone, Copy, PartialEq, Eq, Structural)]
pub enum ModalAction {
    /// Take the entry that is selected in a picker.
    Confirm(PickerKind),
    PickerUp(PickerKind),
    PickerDown(PickerKind),
    ClosePicker(PickerKind),
    /// Stage or unstage a key of a chord.
    ToggleChordKey,
    PushFilter(char),
    PopFilter,
    Close,
    /// Activate the field in focus; save if it asks for that.
    Activate,
    Save,
    NextField,
    PrevField,
    Decrement(bool),
    Increment(bool),
}

/// A sleep time.
#[derive(Debug, Clone, Copy, PartialEq, Eq, Structural)]
pub enum SleepField {
    IdleBt,
    Idle24g,
    DeepBt,
    Deep24g,
}

/// A part of the screen color calibration.
#[derive(Debug, Clone, Copy, PartialEq, Eq, Structural)]
pub enum CalField {
    GainR,
    GainG,
    GainB,
    GammaR,
    GammaG,
    GammaB,
    Saturation,
}

/// What a key press asks of the program around the interface.
#[derive(Debug, Clone, Copy, PartialEq, Eq, Structural)]
pub enum Action {
    Nothing,
    Quit,
    /// Connect to the device that is selected in the picker.
    ConnectToPicked,
    /// Look for devices to fill the picker with.
    ScanDevices,
    CancelHexInput,
    ApplyHexInput,
    StartHexInput(HexColorTarget),
    /// Start a hex input that holds one digit.
    StartHexInputWith(HexColorTarget, char),
    Modal(ModalAction),
    /// Change the field of the filter in focus, forward or back.
    CycleFilterField(bool),
    /// A tab came to the front: scroll to its top, and load.
    EnterTab(TabLoads),
    /// The notification tab handles this key.
    Notify(KeyCode),
    /// Move the selection in the layout by columns and rows.
    LayoutMove(i8, i8),
    ScrollUp(u8),
    ScrollDown(u8),
    StepProfile(i8),
    SetProfile(Profile),
    CycleProfile,
    SetDebounce(u8),
    CyclePollingRate(i8),
    SetLedMode(u8),
    SetBrightness(u8),
    SetSpeed(u8),
    SetColor(u8, u8, u8),
    ToggleDazzle,
    SetSideMode(u8),
    SetSideBrightness(u8),
    SetSideSpeed(u8),
    SetSideColor(u8, u8, u8),
    ToggleSideDazzle,
    SetFnLayer(u8),
    ToggleWasdSwap,
    ToggleAntiMistouch,
    SetRtStability(u8),
    UpdateSleepTime(SleepField, i32),
    CycleAudioDevice(i8),
    CycleAudioStyle(i8),
    CycleAudioRate(i8),
    CycleScreenRate(i8),
    CycleScreenRegion(i8),
    CycleTestSwatch(i8),
    AdjustCalibration(CalField, i8, bool),
    SetUserPicLayer(u8),
    /// Read everything again, once the battery state is fresh.
    Refresh,
    CheckFirmware,
    /// Start or stop the depth reports.
    ReportDepths(bool),
    Connect,
    ApplyPerKeyColor,
    ToggleDepthView,
    CycleSort,
    /// Edit the key at this place of the visible rows.
    EditKey(usize),
    EditAllKeys,
    ClearDepthData,
    /// Select a key for the time series, or deselect it.
    ToggleKeySelection(usize),
}

/// Whether a character is a hexadecimal digit.
pub open spec fn is_hex_digit(c: char) -> bool {
    '0' <= c <= '9' || 'a' <= c <= 'f' || 'A' <= c <= 'F'
}

/// A hexadecimal digit in upper case.
pub open spec fn upper_digit(c: char) -> char {
    if c == 'a' {
        'A'
    } else if c == 'b' {
        'B'
    } else if c == 'c' {
        'C'
    } else if c == 'd' {
        'D'
    } else if c == 'e' {
        'E'
    } else if c == 'f' {
        'F'
    } else {
        c
    }
}

/// Whether a character is a hexadecimal digit.
fn hex_digit(c: char) -> (r: bool)
    ensures
        r == is_hex_digit(c),
{
    ('0' <= c && c <= '9') || ('a' <= c && c <= 'f') || ('A' <= c && c <= 'F')
}

/// A hexadecimal digit in upper case.
fn to_upper_digit(c: char) -> (r: char)
    ensures
        r == upper_digit(c),
{
    match c {
        'a' => 'A',
        'b' => 'B',
        'c' => 'C',
        'd' => 'D',
        'e' => 'E',
        'f' => 'F',
        _ => c,
    }
}

/// Append a hexadecimal digit in upper case.
fn push_digit(out: &mut String, c: char)
    requires
        is_hex_digit(c),
    ensures
        final(out)@ == old(out)@.push(upper_digit(c)),
{
    let d: u8 = match c {
        '0' => 0,
        '1' => 1,
        '2' => 2,
        '3' => 3,
        '4' => 4,
        '5' => 5,
        '6' => 6,
        '7' => 7,
        '8' => 8,
        '9' => 9,
        'a' | 'A' => 10,
        'b' | 'B' => 11,
        'c' | 'C' => 12,
        'd' | 'D' => 13,
        'e' | 'E' => 14,
        _ => 15,
    };
    push_hex_digit(out, d);
}

/// The picker of the trigger editor that takes the keys.
pub open spec fn open_picker(m: ModalFocus) -> Option<PickerKind> {
    if m.mode_picker {
        Some(PickerKind::Mode)
    } else if m.key_picker {
        Some(PickerKind::Key)
    } else if m.output_picker {
        Some(PickerKind::Output)
    } else if m.dks_action_picker {
        Some(PickerKind::DksAction)
    } else {
        None
    }
}

/// What a key does in a picker of the trigger editor. The list of outputs is long and is
/// filtered by typing, so that letters do not move in it.
pub open spec fn picker_action(kind: PickerKind, code: KeyCode) -> Action {
    if code == KeyCode::Enter {
        Action::Modal(ModalAction::Confirm(kind))
    } else if kind == PickerKind::Output {
        match code {
            KeyCode::Tab => Action::Modal(ModalAction::ToggleChordKey),
            KeyCode::Up => Action::Modal(ModalAction::PickerUp(kind)),
            KeyCode::Down => Action::Modal(ModalAction::PickerDown(kind)),
            KeyCode::Backspace => Action::Modal(ModalAction::PopFilter),
            KeyCode::Char(c) => Action::Modal(ModalAction::PushFilter(c)),
            KeyCode::Esc => Action::Modal(ModalAction::ClosePicker(kind)),
            _ => Action::Nothing,
        }
    } else {
        match code {
            KeyCode::Up => Action::Modal(ModalAction::PickerUp(kind)),
            KeyCode::Char('k') => Action::Modal(ModalAction::PickerUp(kind)),
            KeyCode::Down => Action::Modal(ModalAction::PickerDown(kind)),
            KeyCode::Char('j') => Action::Modal(ModalAction::PickerDown(kind)),
            KeyCode::Esc => Action::Modal(ModalAction::ClosePicker(kind)),
            _ => Action::Nothing,
        }
    }
}

/// What a key does in the trigger editor itself.
pub open spec fn modal_action(key: KeyPress) -> Action {
    match key.code {
        KeyCode::Esc => Action::Modal(ModalAction::Close),
        KeyCode::Enter => Action::Modal(ModalAction::Activate),
        KeyCode::Char('s') => if key.control {
            Action::Modal(ModalAction::Save)
        } else {
            Action::Nothing
        },
        KeyCode::Tab => Action::Modal(ModalAction::NextField),
        KeyCode::Down => Action::Modal(ModalAction::NextField),
        KeyCode::BackTab => Action::Modal(ModalAction::PrevField),
        KeyCode::Up => Action::Modal(ModalAction::PrevField),
        KeyCode::Left => Action::Modal(ModalAction::Decrement(key.shift)),
        KeyCode::Char('h') => Action::Modal(ModalAction::Decrement(key.shift)),
        KeyCode::Right => Action::Modal(ModalAction::Increment(key.shift)),
        KeyCode::Char('l') => Action::Modal(ModalAction::Increment(key.shift)),
        _ => Action::Nothing,
    }
}

/// What a key does in a picker of the trigger editor.
fn act_in_picker(kind: PickerKind, code: KeyCode) -> (r: Action)
    ensures
        r == picker_action(kind, code),
{
    if code == KeyCode::Enter {
        return Action::Modal(ModalAction::Confirm(kind));
    }
    if kind == PickerKind::Output {
        match code {
            KeyCode::Tab => Action::Modal(ModalAction::ToggleChordKey),
            KeyCode::Up => Action::Modal(ModalAction::PickerUp(kind)),
            KeyCode::Down => Action::Modal(ModalAction::PickerDown(kind)),
            KeyCode::Backspace => Action::Modal(ModalAction::PopFilter),
            KeyCode::Char(c) => Action::Modal(ModalAction::PushFilter(c)),
            KeyCode::Esc => Action::Modal(ModalAction::ClosePicker(kind)),
            _ => Action::Nothing,
        }
    } else {
        match code {
            KeyCode::Up | KeyCode::Char('k') => Action::Modal(ModalAction::PickerUp(kind)),
            KeyCode::Down | KeyCode::Char('j') => Action::Modal(ModalAction::PickerDown(kind)),
            KeyCode::Esc => Action::Modal(ModalAction::ClosePicker(kind)),
            _ => Action::Nothing,
        }
    }
}

/// What a key does in the trigger editor itself.
fn act_in_modal(key: KeyPress) -> (r: Action)
    ensures
        r == modal_action(key),
{
    match key.code {
        KeyCode::Esc => Action::Modal(ModalAction::Close),
        KeyCode::Enter => Action::Modal(ModalAction::Activate),
        KeyCode::Char('s') => if key.control {
            Action::Modal(ModalAction::Save)
        } else {
            Action::Nothing
        },
        KeyCode::Tab | KeyCode::Down => Action::Modal(ModalAction::NextField),
        KeyCode::BackTab | KeyCode::Up => Action::Modal(ModalAction::PrevField),
        KeyCode::Left | KeyCode::Char('h') => Action::Modal(ModalAction::Decrement(key.shift)),
        KeyCode::Right | KeyCode::Char('l') => Action::Modal(ModalAction::Increment(key.shift)),
        _ => Action::Nothing,
    }
}

/// Where an output that was picked goes.
#[derive(Debug, Clone, Copy, PartialEq, Eq, Structural)]
pub enum OutputTarget {
    /// A slot of the dynamic keystroke.
    Slot(usize),
    /// The output of the key.
    Output,
}

/// Where an output that was picked goes: both are keymatrix entries, so one picker serves
/// both.
pub fn output_target(on_dks_binding: bool, dks_binding_index: usize) -> (r: OutputTarget)
    ensures
        r == (if on_dks_binding {
            OutputTarget::Slot(dks_binding_index)
        } else {
            OutputTarget::Output
        }),
{
    if on_dks_binding {
        OutputTarget::Slot(dks_binding_index)
    } else {
        OutputTarget::Output
    }
}

/// One direction of a spinner.
pub open spec fn stepped(cfg: SpinnerConfig, value: u8, up: bool, coarse: bool) -> u8 {
    if up {
        cfg.up_u8(value, coarse)
    } else {
        cfg.down_u8(value, coarse)
    }
}

/// One direction of a spinner.
fn spin(cfg: &SpinnerConfig, value: u8, up: bool, coarse: bool) -> (r: u8)
    requires
        cfg.ordered(),
    ensures
        r == stepped(*cfg, value, up, coarse),
{
    if up {
        cfg.increment_u8(value, coarse)
    } else {
        cfg.decrement_u8(value, coarse)
    }
}

/// The LED mode beside one.
pub open spec fn next_mode(mode: u8, up: bool) -> u8 {
    if up {
        if mode < LED_MODE_MAX {
            (mode + 1) as u8
        } else {
            LED_MODE_MAX
        }
    } else if mode > 0 {
        (mode - 1) as u8
    } else {
        0
    }
}

/// The LED mode beside one.
fn mode_beside(mode: u8, up: bool) -> (r: u8)
    ensures
        r == next_mode(mode, up),
{
    if up {
        if mode < LED_MODE_MAX {
            mode + 1
        } else {
            LED_MODE_MAX
        }
    } else if mode > 0 {
        mode - 1
    } else {
        0
    }
}

/// A direction as a number.
pub open spec fn sign(up: bool) -> i8 {
    if up {
        1
    } else {
        -1i8
    }
}

/// By how much a sleep time changes.
pub open spec fn sleep_step(up: bool, coarse: bool) -> i32 {
    if up {
        sleep_time().stride(coarse) as i32
    } else {
        (0 - sleep_time().stride(coarse)) as i32
    }
}

/// What left and right do to an entry of the device tab.
pub open spec fn adjustment(
    info: FirmwareSettings,
    options: Option<EditableOptions>,
    userpic_layer: u8,
    tag: InfoTag,
    up: bool,
    coarse: bool,
) -> Action {
    let led = info.led;
    let side = info.side;
    let dir = sign(up);
    match tag {
        InfoTag::Profile => Action::StepProfile(dir),
        InfoTag::Debounce => Action::SetDebounce(stepped(debounce(), info.debounce, up, coarse)),
        InfoTag::PollingRate => Action::CyclePollingRate(sign(!up)),
        InfoTag::LedMode => Action::SetLedMode(next_mode(led.mode, up)),
        InfoTag::LedBrightness => Action::SetBrightness(
            stepped(level(), led.brightness, up, coarse),
        ),
        InfoTag::LedSpeed => Action::SetSpeed(stepped(level(), wire_speed(led.speed), up, coarse)),
        InfoTag::LedRed => Action::SetColor(stepped(rgb(), led.r, up, coarse), led.g, led.b),
        InfoTag::LedGreen => Action::SetColor(led.r, stepped(rgb(), led.g, up, coarse), led.b),
        InfoTag::LedBlue => Action::SetColor(led.r, led.g, stepped(rgb(), led.b, up, coarse)),
        InfoTag::LedDazzle => Action::ToggleDazzle,
        InfoTag::SideMode => Action::SetSideMode(next_mode(side.mode, up)),
        InfoTag::SideBrightness => Action::SetSideBrightness(
            stepped(level(), side.brightness, up, coarse),
        ),
        InfoTag::SideSpeed => Action::SetSideSpeed(
            stepped(level(), wire_speed(side.speed), up, coarse),
        ),
        InfoTag::SideRed => Action::SetSideColor(stepped(rgb(), side.r, up, coarse), side.g, side.b),
        InfoTag::SideGreen => Action::SetSideColor(
            side.r,
            stepped(rgb(), side.g, up, coarse),
            side.b,
        ),
        InfoTag::SideBlue => Action::SetSideColor(
            side.r,
            side.g,
            stepped(rgb(), side.b, up, coarse),
        ),
        InfoTag::SideDazzle => Action::ToggleSideDazzle,
        InfoTag::FnLayer => match options {
            Some(o) => Action::SetFnLayer(stepped(fn_layer(), o.fn_layer, up, coarse)),
            None => Action::Nothing,
        },
        InfoTag::WasdSwap => Action::ToggleWasdSwap,
        InfoTag::AntiMistouch => Action::ToggleAntiMistouch,
        InfoTag::RtStability => match options {
            Some(o) => Action::SetRtStability(stepped(rt_stability(), o.rt_stability, up, coarse)),
            None => Action::Nothing,
        },
        InfoTag::SleepIdleBt => Action::UpdateSleepTime(SleepField::IdleBt, sleep_step(up, coarse)),
        InfoTag::SleepIdle24g => Action::UpdateSleepTime(
            SleepField::Idle24g,
            sleep_step(up, coarse),
        ),
        InfoTag::SleepDeepBt => Action::UpdateSleepTime(SleepField::DeepBt, sleep_step(up, coarse)),
        InfoTag::SleepDeep24g => Action::UpdateSleepTime(
            SleepField::Deep24g,
            sleep_step(up, coarse),
        ),
        InfoTag::AudioDevice => Action::CycleAudioDevice(dir),
        InfoTag::AudioVizStyle => Action::CycleAudioStyle(dir),
        InfoTag::AudioRate => Action::CycleAudioRate(dir),
        InfoTag::ScreenRate => Action::CycleScreenRate(dir),
        InfoTag::ScreenRegion => Action::CycleScreenRegion(dir),
        InfoTag::ScreenTestSwatch => Action::CycleTestSwatch(dir),
        InfoTag::ScreenGainR => Action::AdjustCalibration(CalField::GainR, dir, coarse),
        InfoTag::ScreenGainG => Action::AdjustCalibration(CalField::GainG, dir, coarse),
        InfoTag::ScreenGainB => Action::AdjustCalibration(CalField::GainB, dir, coarse),
        InfoTag::ScreenGammaR => Action::AdjustCalibration(CalField::GammaR, dir, coarse),
        InfoTag::ScreenGammaG => Action::AdjustCalibration(CalField::GammaG, dir, coarse),
        InfoTag::ScreenGammaB => Action::AdjustCalibration(CalField::GammaB, dir, coarse),
        InfoTag::ScreenSaturation => Action::AdjustCalibration(CalField::Saturation, dir, coarse),
        InfoTag::UserPicLayer => Action::SetUserPicLayer(
            if up {
                ((userpic_layer + 1) % 4) as u8
            } else {
                ((userpic_layer + 3) % 4) as u8
            },
        ),
        _ => Action::Nothing,
    }
}

/// What left and right do to an entry of the device tab. The polling rates are listed
/// fastest first, so that a higher rate has a lower place.
pub fn adjust(
    info: &FirmwareSettings,
    options: &Option<EditableOptions>,
    userpic_layer: u8,
    tag: InfoTag,
    up: bool,
    coarse: bool,
) -> (r: Action)
    requires
        userpic_layer < 4,
    ensures
        r == adjustment(*info, *options, userpic_layer, tag, up, coarse),
{
    let led = info.led;
    let side = info.side;
    let dir: i8 = if up {
        1
    } else {
        -1
    };
    let stride: u16 = if coarse {
        sleep_time_spinner().step_coarse
    } else {
        sleep_time_spinner().step
    };
    let step: i32 = if up {
        stride as i32
    } else {
        0 - stride as i32
    };
    match tag {
        InfoTag::Profile => Action::StepProfile(dir),
        InfoTag::Debounce => Action::SetDebounce(
            spin(&debounce_spinner(), info.debounce, up, coarse),
        ),
        InfoTag::PollingRate => Action::CyclePollingRate(
            if up {
                -1
            } else {
                1
            },
        ),
        InfoTag::LedMode => Action::SetLedMode(mode_beside(led.mode, up)),
        InfoTag::LedBrightness => Action::SetBrightness(
            spin(&level_spinner(), led.brightness, up, coarse),
        ),
        InfoTag::LedSpeed => Action::SetSpeed(
            spin(&level_spinner(), speed_to_wire(led.speed), up, coarse),
        ),
        InfoTag::LedRed => Action::SetColor(spin(&rgb_spinner(), led.r, up, coarse), led.g, led.b),
        InfoTag::LedGreen => Action::SetColor(
            led.r,
            spin(&rgb_spinner(), led.g, up, coarse),
            led.b,
        ),
        InfoTag::LedBlue => Action::SetColor(led.r, led.g, spin(&rgb_spinner(), led.b, up, coarse)),
        InfoTag::LedDazzle => Action::ToggleDazzle,
        InfoTag::SideMode => Action::SetSideMode(mode_beside(side.mode, up)),
        InfoTag::SideBrightness => Action::SetSideBrightness(
            spin(&level_spinner(), side.brightness, up, coarse),
        ),
        InfoTag::SideSpeed => Action::SetSideSpeed(
            spin(&level_spinner(), speed_to_wire(side.speed), up, coarse),
        ),
        InfoTag::SideRed => Action::SetSideColor(
            spin(&rgb_spinner(), side.r, up, coarse),
            side.g,
            side.b,
        ),
        InfoTag::SideGreen => Action::SetSideColor(
            side.r,
            spin(&rgb_spinner(), side.g, up, coarse),
            side.b,
        ),
        InfoTag::SideBlue => Action::SetSideColor(
            side.r,
            side.g,
            spin(&rgb_spinner(), side.b, up, coarse),
        ),
        InfoTag::SideDazzle => Action::ToggleSideDazzle,
        InfoTag::FnLayer => match options {
            Some(o) => Action::SetFnLayer(spin(&fn_layer_spinner(), o.fn_layer, up, coarse)),
            None => Action::Nothing,
        },
        InfoTag::WasdSwap => Action::ToggleWasdSwap,
        InfoTag::AntiMistouch => Action::ToggleAntiMistouch,
        InfoTag::RtStability => match options {
            Some(o) => Action::SetRtStability(
                spin(&rt_stability_spinner(), o.rt_stability, up, coarse),
            ),
            None => Action::Nothing,
        },
        InfoTag::SleepIdleBt => Action::UpdateSleepTime(SleepField::IdleBt, step),
        InfoTag::SleepIdle24g => Action::UpdateSleepTime(SleepField::Idle24g, step),
        InfoTag::SleepDeepBt => Action::UpdateSleepTime(SleepField::DeepBt, step),
        InfoTag::SleepDeep24g => Action::UpdateSleepTime(SleepField::Deep24g, step),
        InfoTag::AudioDevice => Action::CycleAudioDevice(dir),
        InfoTag::AudioVizStyle => Action::CycleAudioStyle(dir),
        InfoTag::AudioRate => Action::CycleAudioRate(dir),
        InfoTag::ScreenRate => Action::CycleScreenRate(dir),
        InfoTag::ScreenRegion => Action::CycleScreenRegion(dir),
        InfoTag::ScreenTestSwatch => Action::CycleTestSwatch(dir),
        InfoTag::ScreenGainR => Action::AdjustCalibration(CalField::GainR, dir, coarse),
        InfoTag::ScreenGainG => Action::AdjustCalibration(CalField::GainG, dir, coarse),
        InfoTag::ScreenGainB => Action::AdjustCalibration(CalField::GainB, dir, coarse),
        InfoTag::ScreenGammaR => Action::AdjustCalibration(CalField::GammaR, dir, coarse),
        InfoTag::ScreenGammaG => Action::AdjustCalibration(CalField::GammaG, dir, coarse),
        InfoTag::ScreenGammaB => Action::AdjustCalibration(CalField::GammaB, dir, coarse),
        InfoTag::ScreenSaturation => Action::AdjustCalibration(CalField::Saturation, dir, coarse),
        InfoTag::UserPicLayer => Action::SetUserPicLayer(
            if up {
                (userpic_layer + 1) % 4
            } else {
                (userpic_layer + 3) % 4
            },
        ),
        _ => Action::Nothing,
    }
}

/// The four user picture layers are a ring: left undoes right, and four steps come round.
pub proof fn picture_layers_are_a_ring(
    info: FirmwareSettings,
    options: Option<EditableOptions>,
    layer: u8,
    coarse: bool,
)
    requires
        layer < 4,
    ensures
        ({
            let next = ((layer + 1) % 4) as u8;
            &&& adjustment(info, options, layer, InfoTag::UserPicLayer, true, coarse)
                == Action::SetUserPicLayer(next)
            &&& next < 4
            &&& adjustment(info, options, next, InfoTag::UserPicLayer, false, coarse)
                == Action::SetUserPicLayer(layer)
        }),
{
}

/// Every value that an entry of the device tab is set to lies in its range.
pub proof fn adjustments_stay_in_range(
    info: FirmwareSettings,
    options: Option<EditableOptions>,
    layer: u8,
    tag: InfoTag,
    up: bool,
    coarse: bool,
)
    requires
        info.led.mode <= LED_MODE_MAX,
        info.side.mode <= LED_MODE_MAX,
    ensures
        match adjustment(info, options, layer, tag, up, coarse) {
            Action::SetDebounce(v) => v <= 25,
            Action::SetLedMode(v) => v <= LED_MODE_MAX,
            Action::SetSideMode(v) => v <= LED_MODE_MAX,
            Action::SetBrightness(v) => v <= 4,
            Action::SetSideBrightness(v) => v <= 4,
            Action::SetSpeed(v) => v <= 4,
            Action::SetSideSpeed(v) => v <= 4,
            Action::SetFnLayer(v) => v <= 1,
            Action::SetRtStability(v) => v <= 5,
            Action::SetUserPicLayer(v) => v < 4,
            _ => true,
        },
{
}

/// What has the keys.
#[derive(Debug, Clone, Copy, PartialEq, Eq, Structural)]
pub enum Focus {
    DevicePicker,
    Help,
    Hex,
    /// A picker of the trigger editor.
    Picker(PickerKind),
    Filter,
    /// The trigger editor.
    Modal,
    /// The tab in front.
    Main,
}

/// What has the keys. Of several popups, the first in this order.
pub open spec fn focus(app: App) -> Focus {
    if app.picker.open {
        Focus::DevicePicker
    } else if app.show_help {
        Focus::Help
    } else if app.hex.editing {
        Focus::Hex
    } else {
        match app.modal {
            Some(m) => match open_picker(m) {
                Some(kind) => Focus::Picker(kind),
                None => if app.key_mapping.filter_open {
                    Focus::Filter
                } else {
                    Focus::Modal
                },
            },
            None => if app.key_mapping.filter_open {
                Focus::Filter
            } else {
                Focus::Main
            },
        }
    }
}

/// A key in the device picker.
pub open spec fn device_picker_key(app: App, code: KeyCode) -> (App, Action) {
    let p = app.picker;
    match code {
        KeyCode::Esc => (App { picker: DevicePicker { open: false, ..p }, ..app }, Action::Nothing),
        KeyCode::Char('d') => (
            App { picker: DevicePicker { open: false, ..p }, ..app },
            Action::Nothing,
        ),
        KeyCode::Up => (picker_moved(app, false), Action::Nothing),
        KeyCode::Char('k') => (picker_moved(app, false), Action::Nothing),
        KeyCode::Down => (picker_moved(app, true), Action::Nothing),
        KeyCode::Char('j') => (picker_moved(app, true), Action::Nothing),
        KeyCode::Enter => (app, Action::ConnectToPicked),
        _ => (app, Action::Nothing),
    }
}

/// The selection of the device picker moved by one, within the list.
pub open spec fn picker_moved(app: App, down: bool) -> App {
    let p = app.picker;
    let selected = if down {
        if p.selected + 1 < p.items@.len() {
            (p.selected + 1) as usize
        } else {
            p.selected
        }
    } else if p.selected > 0 {
        (p.selected - 1) as usize
    } else {
        p.selected
    };
    App { picker: DevicePicker { selected, ..p }, ..app }
}

/// A key in the help.
pub open spec fn help_key(app: App, code: KeyCode) -> App {
    if code == KeyCode::Char('?') || code == KeyCode::Esc || code == KeyCode::F(1) {
        App { show_help: false, ..app }
    } else {
        app
    }
}

/// The text of the hex input after a key. It holds no more than six digits.
pub open spec fn hex_typed(input: Seq<char>, code: KeyCode) -> Seq<char> {
    match code {
        KeyCode::Backspace => if input.len() > 0 {
            input.drop_last()
        } else {
            input
        },
        KeyCode::Char(c) => if is_hex_digit(c) && input.len() < 6 {
            input.push(upper_digit(c))
        } else {
            input
        },
        _ => input,
    }
}

/// What a key asks for in the hex input.
pub open spec fn hex_action(code: KeyCode) -> Action {
    match code {
        KeyCode::Esc => Action::CancelHexInput,
        KeyCode::Enter => Action::ApplyHexInput,
        _ => Action::Nothing,
    }
}

/// A key in the filter of the key mapping.
pub open spec fn filter_key(app: App, code: KeyCode) -> (App, Action) {
    let k = app.key_mapping;
    let closed = App { key_mapping: KeyMappingTab { filter_open: false, ..k }, ..app };
    let above = App {
        key_mapping: KeyMappingTab {
            filter_field: if k.filter_field > 0 {
                (k.filter_field - 1) as usize
            } else {
                0
            },
            ..k
        },
        ..app
    };
    let below = App {
        key_mapping: KeyMappingTab {
            filter_field: if k.filter_field < 3 {
                (k.filter_field + 1) as usize
            } else {
                3
            },
            ..k
        },
        ..app
    };
    match code {
        KeyCode::Esc => (closed, Action::Nothing),
        KeyCode::Enter => (closed, Action::Nothing),
        KeyCode::Char('f') => (closed, Action::Nothing),
        KeyCode::Up => (above, Action::Nothing),
        KeyCode::Char('k') => (above, Action::Nothing),
        KeyCode::Down => (below, Action::Nothing),
        KeyCode::Char('j') => (below, Action::Nothing),
        KeyCode::Left => (app, Action::CycleFilterField(false)),
        KeyCode::Char('h') => (app, Action::CycleFilterField(false)),
        KeyCode::Right => (app, Action::CycleFilterField(true)),
        KeyCode::Char('l') => (app, Action::CycleFilterField(true)),
        _ => (app, Action::Nothing),
    }
}

/// The tab that a key with Alt stands for.
pub open spec fn alt_tab(key: KeyPress) -> Option<usize> {
    if !key.alt {
        None
    } else {
        match key.code {
            KeyCode::Char('1') => Some(0usize),
            KeyCode::Char('2') => Some(1usize),
            KeyCode::Char('3') => Some(2usize),
            KeyCode::Char('4') => Some(3usize),
            KeyCode::Char('5') => Some(4usize),
            _ => None,
        }
    }
}

/// Where a row of the depth chart starts. The last entry is the end of the chart.
pub open spec fn row_start(row: int) -> int {
    if row <= 0 {
        0
    } else if row == 1 {
        15
    } else if row == 2 {
        30
    } else if row == 3 {
        43
    } else if row == 4 {
        56
    } else {
        66
    }
}

/// The row of a key in the depth chart.
pub open spec fn row_of(cursor: int) -> int {
    if cursor < 15 {
        0
    } else if cursor < 30 {
        1
    } else if cursor < 43 {
        2
    } else if cursor < 56 {
        3
    } else {
        4
    }
}

/// A key in the same column of another row, or the last of that row.
pub open spec fn in_row(cursor: int, row: int) -> int {
    let col = cursor - row_start(row_of(cursor));
    let last = row_start(row + 1) - row_start(row) - 1;
    row_start(row) + if col < last {
        col
    } else {
        last
    }
}

/// The key above in the depth chart.
pub open spec fn key_above(cursor: int) -> int {
    if row_of(cursor) > 0 {
        in_row(cursor, row_of(cursor) - 1)
    } else {
        cursor
    }
}

/// The key below in the depth chart.
pub open spec fn key_below(cursor: int) -> int {
    if row_of(cursor) < 4 {
        in_row(cursor, row_of(cursor) + 1)
    } else {
        cursor
    }
}

/// Whether the depth chart is in front.
pub open spec fn on_depth_chart(app: App) -> bool {
    app.tab == 1 && app.depth_view_mode == DepthViewMode::BarChart
}

/// Whether the notification tab is in front.
pub open spec fn on_notify(app: App) -> bool {
    app.notify.enabled && app.tab == 3
}

/// The state with the cursor of the depth chart on a key.
pub open spec fn with_cursor(app: App, cursor: int) -> App {
    App { depth_cursor: cursor as usize, ..app }
}

/// The state with a row of the key mapping selected.
pub open spec fn with_row(app: App, row: int) -> App {
    App { key_mapping: KeyMappingTab { selected: row as usize, ..app.key_mapping }, ..app }
}

/// The entry of the device tab that is selected.
pub open spec fn selected_tag(app: App) -> InfoTag {
    if app.selected < app.info_tags@.len() {
        app.info_tags@[app.selected as int]
    } else {
        InfoTag::ReadOnly
    }
}

/// Up.
pub open spec fn up_key(app: App, code: KeyCode) -> (App, Action) {
    if on_depth_chart(app) {
        (with_cursor(app, key_above(app.depth_cursor as int)), Action::Nothing)
    } else if app.tab == 2 {
        if app.key_mapping.view == KeyMappingView::Layout {
            (app, Action::LayoutMove(0, -1i8))
        } else if app.key_mapping.selected > 0 {
            (with_row(app, app.key_mapping.selected - 1), Action::ScrollUp(1))
        } else {
            (app, Action::Nothing)
        }
    } else if on_notify(app) {
        (app, Action::Notify(code))
    } else if app.selected > 0 {
        (App { selected: (app.selected - 1) as usize, ..app }, Action::Nothing)
    } else {
        (app, Action::Nothing)
    }
}

/// Down. `visible` is the number of rows of the key mapping that are shown.
pub open spec fn down_key(app: App, code: KeyCode, visible: usize) -> (App, Action) {
    if on_depth_chart(app) {
        (with_cursor(app, key_below(app.depth_cursor as int)), Action::Nothing)
    } else if app.tab == 2 {
        if app.key_mapping.view == KeyMappingView::Layout {
            (app, Action::LayoutMove(0, 1))
        } else if app.key_mapping.selected + 1 < visible {
            (with_row(app, app.key_mapping.selected + 1), Action::ScrollDown(1))
        } else {
            (app, Action::Nothing)
        }
    } else if on_notify(app) {
        (app, Action::Notify(code))
    } else if app.selected + 1 < app.info_tags@.len() {
        (App { selected: (app.selected + 1) as usize, ..app }, Action::Nothing)
    } else {
        (app, Action::Nothing)
    }
}

/// Left.
pub open spec fn left_key(app: App, key: KeyPress) -> (App, Action) {
    if on_depth_chart(app) {
        (
            with_cursor(
                app,
                if app.depth_cursor > 0 {
                    app.depth_cursor - 1
                } else {
                    0
                },
            ),
            Action::Nothing,
        )
    } else if app.tab == 2 && app.key_mapping.view == KeyMappingView::Layout {
        (app, Action::LayoutMove(-1i8, 0))
    } else if app.tab == 0 {
        (
            app,
            adjustment(
                app.info,
                app.options,
                app.userpic_layer,
                selected_tag(app),
                false,
                key.shift,
            ),
        )
    } else if on_notify(app) {
        (app, Action::Notify(key.code))
    } else {
        (app, Action::Nothing)
    }
}

/// Right.
pub open spec fn right_key(app: App, key: KeyPress) -> (App, Action) {
    if on_depth_chart(app) {
        let keys = if app.depth_keys < 66 {
            app.depth_keys as int
        } else {
            66
        };
        (
            if app.depth_cursor + 1 < keys {
                with_cursor(app, app.depth_cursor + 1)
            } else {
                app
            },
            Action::Nothing,
        )
    } else if app.tab == 2 && app.key_mapping.view == KeyMappingView::Layout {
        (app, Action::LayoutMove(1, 0))
    } else if app.tab == 0 {
        (
            app,
            adjustment(
                app.info,
                app.options,
                app.userpic_layer,
                selected_tag(app),
                true,
                key.shift,
            ),
        )
    } else if on_notify(app) {
        (app, Action::Notify(key.code))
    } else {
        (app, Action::Nothing)
    }
}

/// Enter in the device tab.
pub open spec fn enter_info(app: App) -> (App, Action) {
    match selected_tag(app) {
        InfoTag::Device => (
            App { picker: DevicePicker { open: true, ..app.picker }, ..app },
            Action::ScanDevices,
        ),
        InfoTag::FirmwareCheck => (app, Action::CheckFirmware),
        InfoTag::LedColorHex => (app, Action::StartHexInput(HexColorTarget::MainLed)),
        InfoTag::SideColorHex => (app, Action::StartHexInput(HexColorTarget::SideLed)),
        _ => (app, Action::Nothing),
    }
}

/// The number sign in the device tab.
pub open spec fn number_sign(app: App) -> Action {
    match selected_tag(app) {
        InfoTag::LedRed => Action::StartHexInput(HexColorTarget::MainLed),
        InfoTag::LedGreen => Action::StartHexInput(HexColorTarget::MainLed),
        InfoTag::LedBlue => Action::StartHexInput(HexColorTarget::MainLed),
        InfoTag::LedColorHex => Action::StartHexInput(HexColorTarget::MainLed),
        InfoTag::SideRed => Action::StartHexInput(HexColorTarget::SideLed),
        InfoTag::SideGreen => Action::StartHexInput(HexColorTarget::SideLed),
        InfoTag::SideBlue => Action::StartHexInput(HexColorTarget::SideLed),
        InfoTag::SideColorHex => Action::StartHexInput(HexColorTarget::SideLed),
        _ => Action::Nothing,
    }
}

/// A hexadecimal digit in the device tab.
pub open spec fn digit_typed(app: App, c: char) -> Action {
    match selected_tag(app) {
        InfoTag::LedColorHex => Action::StartHexInputWith(HexColorTarget::MainLed, upper_digit(c)),
        InfoTag::SideColorHex => Action::StartHexInputWith(HexColorTarget::SideLed, upper_digit(c)),
        _ => Action::Nothing,
    }
}

/// A character key, but for those that move. In the device tab, hexadecimal digits come
/// before any other meaning.
pub open spec fn char_key(app: App, key: KeyPress, c: char, visible: usize) -> (App, Action) {
    let k = app.key_mapping;
    if c == '?' {
        (App { show_help: true, ..app }, Action::Nothing)
    } else if c == 'q' {
        (app, Action::Quit)
    } else if c == 'r' {
        (app, Action::Refresh)
    } else if c == '#' && app.tab == 0 {
        (app, number_sign(app))
    } else if app.tab == 0 && is_hex_digit(c) {
        (app, digit_typed(app, c))
    } else if c == 'f' && app.tab == 2 {
        (
            App { key_mapping: KeyMappingTab { filter_open: true, filter_field: 0, ..k }, ..app },
            Action::Nothing,
        )
    } else if c == 'm' {
        (
            App { depth_monitoring: !app.depth_monitoring, ..app },
            Action::ReportDepths(!app.depth_monitoring),
        )
    } else if c == 'c' {
        (app, Action::Connect)
    } else if c == 'd' {
        (
            App { picker: DevicePicker { open: true, ..app.picker }, ..app },
            Action::ScanDevices,
        )
    } else if c == 'p' && key.control {
        (app, Action::CycleProfile)
    } else if c == '1' && key.control {
        (app, Action::SetProfile(Profile::First))
    } else if c == '2' && key.control {
        (app, Action::SetProfile(Profile::Second))
    } else if c == '3' && key.control {
        (app, Action::SetProfile(Profile::Third))
    } else if c == '4' && key.control {
        (app, Action::SetProfile(Profile::Fourth))
    } else if c == 'p' && app.tab == 0 {
        (app, Action::ApplyPerKeyColor)
    } else if c == 'v' && app.tab == 1 {
        (app, Action::ToggleDepthView)
    } else if c == 'v' && app.tab == 2 {
        (
            App {
                key_mapping: KeyMappingTab {
                    view: match k.view {
                        KeyMappingView::List => KeyMappingView::Layout,
                        KeyMappingView::Layout => KeyMappingView::List,
                    },
                    ..k
                },
                ..app
            },
            Action::Nothing,
        )
    } else if c == 's' && app.tab == 2 {
        (app, Action::CycleSort)
    } else if c == 'e' && app.tab == 2 {
        (app, edit_selected(app, visible))
    } else if c == 'g' && app.tab == 2 {
        (app, Action::EditAllKeys)
    } else if c == 'x' && app.tab == 1 {
        (app, Action::ClearDepthData)
    } else if c == ' ' && app.tab == 1 {
        (
            app,
            if app.depth_view_mode == DepthViewMode::BarChart {
                Action::ToggleKeySelection(app.depth_cursor)
            } else {
                Action::Nothing
            },
        )
    } else if on_notify(app) {
        (app, Action::Notify(key.code))
    } else {
        (app, Action::Nothing)
    }
}

/// Edit the selected key.
pub open spec fn edit_selected(app: App, visible: usize) -> Action {
    if app.key_mapping.selected < visible {
        Action::EditKey(app.key_mapping.selected)
    } else {
        Action::Nothing
    }
}

/// The status line that a key sets.
pub open spec fn key_status(app: App, key: KeyPress) -> Option<Seq<char>> {
    if key.code == KeyCode::Char('m') {
        Some(
            if app.depth_monitoring {
                "Key depth monitoring DISABLED"@
            } else {
                "Key depth monitoring ENABLED"@
            },
        )
    } else {
        None
    }
}

/// A page down.
pub open spec fn page_down(app: App, visible: usize) -> App {
    with_row(
        app,
        if visible == 0 {
            0
        } else if app.key_mapping.selected + 10 < visible {
            app.key_mapping.selected + 10
        } else {
            visible - 1
        },
    )
}

/// A page up.
pub open spec fn page_up(app: App) -> App {
    with_row(
        app,
        if app.key_mapping.selected > 10 {
            app.key_mapping.selected - 10
        } else {
            0
        },
    )
}

/// A key in the tab in front, but for the status line.
pub open spec fn tab_key(app: App, key: KeyPress, visible: usize) -> (App, Action) {
    match key.code {
        KeyCode::F(n) => if n == 1 {
            (App { show_help: true, ..app }, Action::Nothing)
        } else if on_notify(app) {
            (app, Action::Notify(key.code))
        } else {
            (app, Action::Nothing)
        },
        KeyCode::Esc => if on_notify(app) && !app.notify.effect_list_focused {
            (app, Action::Notify(key.code))
        } else {
            (app, Action::Quit)
        },
        KeyCode::Up => up_key(app, key.code),
        KeyCode::Char('k') => up_key(app, key.code),
        KeyCode::Down => down_key(app, key.code, visible),
        KeyCode::Char('j') => down_key(app, key.code, visible),
        KeyCode::Left => left_key(app, key),
        KeyCode::Char('h') => left_key(app, key),
        KeyCode::Right => right_key(app, key),
        KeyCode::Char('l') => right_key(app, key),
        KeyCode::Enter => if app.tab == 0 {
            enter_info(app)
        } else if app.tab == 2 {
            (app, edit_selected(app, visible))
        } else if on_notify(app) {
            (app, Action::Notify(key.code))
        } else {
            (app, Action::Nothing)
        },
        KeyCode::PageUp => if app.tab == 2 {
            (page_up(app), Action::ScrollUp(10))
        } else if on_notify(app) {
            (app, Action::Notify(key.code))
        } else {
            (app, Action::Nothing)
        },
        KeyCode::PageDown => if app.tab == 2 {
            (page_down(app, visible), Action::ScrollDown(10))
        } else if on_notify(app) {
            (app, Action::Notify(key.code))
        } else {
            (app, Action::Nothing)
        },
        KeyCode::Char(c) => char_key(app, key, c, visible),
        _ => if on_notify(app) {
            (app, Action::Notify(key.code))
        } else {
            (app, Action::Nothing)
        },
    }
}

/// Whether a key press does what it should: `new` is the state after it, `r` what it asks
/// for.
pub open spec fn key_handled(
    app: App,
    key: KeyPress,
    visible: usize,
    pages_read: Option<u64>,
    new: App,
    r: Action,
) -> bool {
    match focus(app) {
        Focus::DevicePicker => (new, r) == device_picker_key(app, key.code),
        Focus::Help => new == help_key(app, key.code) && r == Action::Nothing,
        Focus::Hex => {
            &&& new == (App { hex: HexInput { input: new.hex.input, ..app.hex }, ..app })
            &&& new.hex.input@ == hex_typed(app.hex.input@, key.code)
            &&& r == hex_action(key.code)
        },
        Focus::Picker(kind) => new == app && r == picker_action(kind, key.code),
        Focus::Filter => (new, r) == filter_key(app, key.code),
        Focus::Modal => new == app && r == modal_action(key),
        Focus::Main => match alt_tab(key) {
            Some(tab) => if tab < app.tabs() {
                &&& new == tab_entered(fronted(app, tab), pages_read)
                &&& r == Action::EnterTab(tab_loads(fronted(app, tab), pages_read))
            } else {
                new == app && r == Action::Nothing
            },
            None => {
                &&& shows(new, tab_key(app, key, visible).0, key_status(app, key))
                &&& r == tab_key(app, key, visible).1
            },
        },
    }
}

/// A character key keeps what the interface counts up in range.
proof fn lemma_char_keeps_range(app: App, key: KeyPress, c: char, visible: usize)
    requires
        app.wf(),
    ensures
        char_key(app, key, c, visible).0.wf(),
{
}

/// The row of a key in the depth chart.
fn chart_row(cursor: usize) -> (r: usize)
    ensures
        r == row_of(cursor as int),
        r <= 4,
        row_start(r as int) <= cursor,
{
    if cursor < 15 {
        0
    } else if cursor < 30 {
        1
    } else if cursor < 43 {
        2
    } else if cursor < 56 {
        3
    } else {
        4
    }
}

/// Where a row of the depth chart starts.
fn chart_row_start(row: usize) -> (r: usize)
    ensures
        r == row_start(row as int),
{
    match row {
        0 => 0,
        1 => 15,
        2 => 30,
        3 => 43,
        4 => 56,
        _ => 66,
    }
}

/// A key in the same column of another row, or the last of that row.
fn move_to_row(cursor: usize, row: usize) -> (r: usize)
    requires
        row <= 4,
    ensures
        r == in_row(cursor as int, row as int),
{
    let col: usize = cursor - chart_row_start(chart_row(cursor));
    let start: usize = chart_row_start(row);
    let last: usize = chart_row_start(row + 1) - start - 1;
    start + if col < last {
        col
    } else {
        last
    }
}

impl App {
    /// What has the keys.
    pub fn focus(&self) -> (r: Focus)
        ensures
            r == focus(*self),
    {
        if self.picker.open {
            return Focus::DevicePicker;
        }
        if self.show_help {
            return Focus::Help;
        }
        if self.hex.editing {
            return Focus::Hex;
        }
        if let Some(m) = self.modal {
            if m.mode_picker {
                return Focus::Picker(PickerKind::Mode);
            }
            if m.key_picker {
                return Focus::Picker(PickerKind::Key);
            }
            if m.output_picker {
                return Focus::Picker(PickerKind::Output);
            }
            if m.dks_action_picker {
                return Focus::Picker(PickerKind::DksAction);
            }
        }
        if self.key_mapping.filter_open {
            return Focus::Filter;
        }
        if self.modal.is_some() {
            Focus::Modal
        } else {
            Focus::Main
        }
    }

    /// A key in the device picker.
    fn on_device_picker_key(&mut self, code: KeyCode) -> (r: Action)
        ensures
            (*final(self), r) == device_picker_key(*old(self), code),
            old(self).wf() ==> final(self).wf(),
    {
        match code {
            KeyCode::Esc | KeyCode::Char('d') => {
                self.picker.open = false;
            },
            KeyCode::Up | KeyCode::Char('k') => {
                if self.picker.selected > 0 {
                    self.picker.selected = self.picker.selected - 1;
                }
            },
            KeyCode::Down | KeyCode::Char('j') => {
                let n: usize = self.picker.items.len();
                if n > 0 && self.picker.selected < n - 1 {
                    self.picker.selected = self.picker.selected + 1;
                }
            },
            KeyCode::Enter => {
                return Action::ConnectToPicked;
            },
            _ => {},
        }
        Action::Nothing
    }

    /// A key in the help.
    fn on_help_key(&mut self, code: KeyCode)
        ensures
            *final(self) == help_key(*old(self), code),
            old(self).wf() ==> final(self).wf(),
    {
        match code {
            KeyCode::Char('?') | KeyCode::Esc | KeyCode::F(1) => {
                self.show_help = false;
            },
            _ => {},
        }
    }

    /// A key in the hex input.
    fn on_hex_key(&mut self, code: KeyCode) -> (r: Action)
        ensures
            *final(self) == (App {
                hex: HexInput { input: final(self).hex.input, ..old(self).hex },
                ..*old(self)
            }),
            final(self).hex.input@ == hex_typed(old(self).hex.input@, code),
            r == hex_action(code),
            old(self).wf() ==> final(self).wf(),
    {
        match code {
            KeyCode::Esc => Action::CancelHexInput,
            KeyCode::Enter => Action::ApplyHexInput,
            KeyCode::Backspace => {
                let n: usize = self.hex.input.as_str().unicode_len();
                if n > 0 {
                    let kept: &str = self.hex.input.as_str().substring_char(0, n - 1);
                    assert(kept@ =~= self.hex.input@.drop_last());
                    self.hex.input = kept.to_owned();
                }
                Action::Nothing
            },
            KeyCode::Char(c) => {
                if hex_digit(c) && self.hex.input.as_str().unicode_len() < 6 {
                    push_digit(&mut self.hex.input, c);
                }
                Action::Nothing
            },
            _ => Action::Nothing,
        }
    }

    /// A key in the filter of the key mapping.
    fn on_filter_key(&mut self, code: KeyCode) -> (r: Action)
        ensures
            (*final(self), r) == filter_key(*old(self), code),
            old(self).wf() ==> final(self).wf(),
    {
        match code {
            KeyCode::Esc | KeyCode::Enter | KeyCode::Char('f') => {
                self.key_mapping.filter_open = false;
                Action::Nothing
            },
            KeyCode::Up | KeyCode::Char('k') => {
                if self.key_mapping.filter_field > 0 {
                    self.key_mapping.filter_field = self.key_mapping.filter_field - 1;
                }
                Action::Nothing
            },
            KeyCode::Down | KeyCode::Char('j') => {
                if self.key_mapping.filter_field < 3 {
                    self.key_mapping.filter_field = self.key_mapping.filter_field + 1;
                } else {
                    self.key_mapping.filter_field = 3;
                }
                Action::Nothing
            },
            KeyCode::Left | KeyCode::Char('h') => Action::CycleFilterField(false),
            KeyCode::Right | KeyCode::Char('l') => Action::CycleFilterField(true),
            _ => Action::Nothing,
        }
    }

    /// Whether the depth chart is in front.
    fn shows_depth_chart(&self) -> (r: bool)
        ensures
            r == on_depth_chart(*self),
    {
        self.tab == 1 && self.depth_view_mode == DepthViewMode::BarChart
    }

    /// What the notification tab does with a key, if it is in front.
    fn to_notify(&self, code: KeyCode) -> (r: Action)
        ensures
            r == (if on_notify(*self) {
                Action::Notify(code)
            } else {
                Action::Nothing
            }),
    {
        if self.notify.enabled && self.tab == 3 {
            Action::Notify(code)
        } else {
            Action::Nothing
        }
    }

    /// The entry of the device tab that is selected.
    pub fn selected_tag(&self) -> (r: InfoTag)
        ensures
            r == selected_tag(*self),
    {
        if self.selected < self.info_tags.len() {
            self.info_tags[self.selected]
        } else {
            InfoTag::ReadOnly
        }
    }

    /// Up.
    fn on_up(&mut self, code: KeyCode) -> (r: Action)
        ensures
            (*final(self), r) == up_key(*old(self), code),
            old(self).wf() ==> final(self).wf(),
    {
        if self.shows_depth_chart() {
            let row: usize = chart_row(self.depth_cursor);
            if row > 0 {
                self.depth_cursor = move_to_row(self.depth_cursor, row - 1);
            }
            Action::Nothing
        } else if self.tab == 2 {
            if self.key_mapping.view == KeyMappingView::Layout {
                Action::LayoutMove(0, -1)
            } else if self.key_mapping.selected > 0 {
                self.key_mapping.selected = self.key_mapping.selected - 1;
                Action::ScrollUp(1)
            } else {
                Action::Nothing
            }
        } else if self.notify.enabled && self.tab == 3 {
            Action::Notify(code)
        } else {
            if self.selected > 0 {
                self.selected = self.selected - 1;
            }
            Action::Nothing
        }
    }

    /// Down.
    fn on_down(&mut self, code: KeyCode, visible: usize) -> (r: Action)
        ensures
            (*final(self), r) == down_key(*old(self), code, visible),
            old(self).wf() ==> final(self).wf(),
    {
        if self.shows_depth_chart() {
            let row: usize = chart_row(self.depth_cursor);
            if row < 4 {
                self.depth_cursor = move_to_row(self.depth_cursor, row + 1);
            }
            Action::Nothing
        } else if self.tab == 2 {
            if self.key_mapping.view == KeyMappingView::Layout {
                Action::LayoutMove(0, 1)
            } else if visible > 0 && self.key_mapping.selected < visible - 1 {
                self.key_mapping.selected = self.key_mapping.selected + 1;
                Action::ScrollDown(1)
            } else {
                Action::Nothing
            }
        } else if self.notify.enabled && self.tab == 3 {
            Action::Notify(code)
        } else {
            let n: usize = self.info_tags.len();
            if n > 0 && self.selected < n - 1 {
                self.selected = self.selected + 1;
            }
            Action::Nothing
        }
    }

    /// Left.
    fn on_left(&mut self, key: KeyPress) -> (r: Action)
        requires
            old(self).wf(),
        ensures
            (*final(self), r) == left_key(*old(self), key),
            old(self).wf() ==> final(self).wf(),
    {
        if self.shows_depth_chart() {
            if self.depth_cursor > 0 {
                self.depth_cursor = self.depth_cursor - 1;
            }
            Action::Nothing
        } else if self.tab == 2 && self.key_mapping.view == KeyMappingView::Layout {
            Action::LayoutMove(-1, 0)
        } else if self.tab == 0 {
            adjust(
                &self.info,
                &self.options,
                self.userpic_layer,
                self.selected_tag(),
                false,
                key.shift,
            )
        } else {
            self.to_notify(key.code)
        }
    }

    /// Right.
    fn on_right(&mut self, key: KeyPress) -> (r: Action)
        requires
            old(self).wf(),
        ensures
            (*final(self), r) == right_key(*old(self), key),
            old(self).wf() ==> final(self).wf(),
    {
        if self.shows_depth_chart() {
            let keys: usize = if self.depth_keys < 66 {
                self.depth_keys
            } else {
                66
            };
            if keys > 0 && self.depth_cursor < keys - 1 {
                self.depth_cursor = self.depth_cursor + 1;
            }
            Action::Nothing
        } else if self.tab == 2 && self.key_mapping.view == KeyMappingView::Layout {
            Action::LayoutMove(1, 0)
        } else if self.tab == 0 {
            adjust(
                &self.info,
                &self.options,
                self.userpic_layer,
                self.selected_tag(),
                true,
                key.shift,
            )
        } else {
            self.to_notify(key.code)
        }
    }

    /// Enter in the device tab.
    fn on_enter_info(&mut self) -> (r: Action)
        ensures
            (*final(self), r) == enter_info(*old(self)),
            old(self).wf() ==> final(self).wf(),
    {
        match self.selected_tag() {
            InfoTag::Device => {
                self.picker.open = true;
                Action::ScanDevices
            },
            InfoTag::FirmwareCheck => Action::CheckFirmware,
            InfoTag::LedColorHex => Action::StartHexInput(HexColorTarget::MainLed),
            InfoTag::SideColorHex => Action::StartHexInput(HexColorTarget::SideLed),
            _ => Action::Nothing,
        }
    }

    /// The number sign in the device tab.
    fn on_number_sign(&self) -> (r: Action)
        ensures
            r == number_sign(*self),
    {
        match self.selected_tag() {
            InfoTag::LedRed | InfoTag::LedGreen | InfoTag::LedBlue | InfoTag::LedColorHex => {
                Action::StartHexInput(HexColorTarget::MainLed)
            },
            InfoTag::SideRed | InfoTag::SideGreen | InfoTag::SideBlue | InfoTag::SideColorHex => {
                Action::StartHexInput(HexColorTarget::SideLed)
            },
            _ => Action::Nothing,
        }
    }

    /// A hexadecimal digit in the device tab.
    fn on_digit(&self, c: char) -> (r: Action)
        ensures
            r == digit_typed(*self, c),
    {
        match self.selected_tag() {
            InfoTag::LedColorHex => Action::StartHexInputWith(
                HexColorTarget::MainLed,
                to_upper_digit(c),
            ),
            InfoTag::SideColorHex => Action::StartHexInputWith(
                HexColorTarget::SideLed,
                to_upper_digit(c),
            ),
            _ => Action::Nothing,
        }
    }

    /// Edit the selected key.
    fn edit_key(&self, visible: usize) -> (r: Action)
        ensures
            r == edit_selected(*self, visible),
    {
        if self.key_mapping.selected < visible {
            Action::EditKey(self.key_mapping.selected)
        } else {
            Action::Nothing
        }
    }

    /// A character key, but for those that move.
    fn on_char(&mut self, key: KeyPress, c: char, visible: usize) -> (r: Action)
        requires
            key.code == KeyCode::Char(c),
        ensures
            shows(
                *final(self),
                char_key(*old(self), key, c, visible).0,
                key_status(*old(self), key),
            ),
            r == char_key(*old(self), key, c, visible).1,
    {
        if c == '?' {
            self.show_help = true;
            Action::Nothing
        } else if c == 'q' {
            Action::Quit
        } else if c == 'r' {
            Action::Refresh
        } else if c == '#' && self.tab == 0 {
            self.on_number_sign()
        } else if self.tab == 0 && hex_digit(c) {
            self.on_digit(c)
        } else if c == 'f' && self.tab == 2 {
            self.key_mapping.filter_open = true;
            self.key_mapping.filter_field = 0;
            Action::Nothing
        } else if c == 'm' {
            self.depth_monitoring = !self.depth_monitoring;
            self.status_msg = if self.depth_monitoring {
                "Key depth monitoring ENABLED".to_owned()
            } else {
                "Key depth monitoring DISABLED".to_owned()
            };
            Action::ReportDepths(self.depth_monitoring)
        } else if c == 'c' {
            Action::Connect
        } else if c == 'd' {
            self.picker.open = true;
            Action::ScanDevices
        } else if c == 'p' && key.control {
            Action::CycleProfile
        } else if c == '1' && key.control {
            Action::SetProfile(Profile::First)
        } else if c == '2' && key.control {
            Action::SetProfile(Profile::Second)
        } else if c == '3' && key.control {
            Action::SetProfile(Profile::Third)
        } else if c == '4' && key.control {
            Action::SetProfile(Profile::Fourth)
        } else if c == 'p' && self.tab == 0 {
            Action::ApplyPerKeyColor
        } else if c == 'v' && self.tab == 1 {
            Action::ToggleDepthView
        } else if c == 'v' && self.tab == 2 {
            self.key_mapping.view = match self.key_mapping.view {
                KeyMappingView::List => KeyMappingView::Layout,
                KeyMappingView::Layout => KeyMappingView::List,
            };
            Action::Nothing
        } else if c == 's' && self.tab == 2 {
            Action::CycleSort
        } else if c == 'e' && self.tab == 2 {
            self.edit_key(visible)
        } else if c == 'g' && self.tab == 2 {
            Action::EditAllKeys
        } else if c == 'x' && self.tab == 1 {
            Action::ClearDepthData
        } else if c == ' ' && self.tab == 1 {
            if self.depth_view_mode == DepthViewMode::BarChart {
                Action::ToggleKeySelection(self.depth_cursor)
            } else {
                Action::Nothing
            }
        } else {
            self.to_notify(key.code)
        }
    }

    /// A page down in the key mapping.
    fn on_page_down(&mut self, visible: usize)
        ensures
            *final(self) == page_down(*old(self), visible),
            old(self).wf() ==> final(self).wf(),
    {
        if visible == 0 {
            self.key_mapping.selected = 0;
        } else if visible > 10 && self.key_mapping.selected < visible - 10 {
            self.key_mapping.selected = self.key_mapping.selected + 10;
        } else {
            self.key_mapping.selected = visible - 1;
        }
    }

    /// A page up in the key mapping.
    fn on_page_up(&mut self)
        ensures
            *final(self) == page_up(*old(self)),
            old(self).wf() ==> final(self).wf(),
    {
        if self.key_mapping.selected > 10 {
            self.key_mapping.selected = self.key_mapping.selected - 10;
        } else {
            self.key_mapping.selected = 0;
        }
    }

    /// A key in the tab in front.
    fn on_tab_key(&mut self, key: KeyPress, visible: usize) -> (r: Action)
        requires
            old(self).wf(),
        ensures
            shows(*final(self), tab_key(*old(self), key, visible).0, key_status(*old(self), key)),
            r == tab_key(*old(self), key, visible).1,
            old(self).wf() ==> final(self).wf(),
    {
        match key.code {
            KeyCode::F(1) => {
                self.show_help = true;
                Action::Nothing
            },
            KeyCode::Esc => {
                if self.notify.enabled && self.tab == 3 && !self.notify.effect_list_focused {
                    Action::Notify(key.code)
                } else {
                    Action::Quit
                }
            },
            KeyCode::Up | KeyCode::Char('k') => self.on_up(key.code),
            KeyCode::Down | KeyCode::Char('j') => self.on_down(key.code, visible),
            KeyCode::Left | KeyCode::Char('h') => self.on_left(key),
            KeyCode::Right | KeyCode::Char('l') => self.on_right(key),
            KeyCode::Enter => {
                if self.tab == 0 {
                    self.on_enter_info()
                } else if self.tab == 2 {
                    self.edit_key(visible)
                } else {
                    self.to_notify(key.code)
                }
            },
            KeyCode::PageUp => {
                if self.tab == 2 {
                    self.on_page_up();
                    Action::ScrollUp(10)
                } else {
                    self.to_notify(key.code)
                }
            },
            KeyCode::PageDown => {
                if self.tab == 2 {
                    self.on_page_down(visible);
                    Action::ScrollDown(10)
                } else {
                    self.to_notify(key.code)
                }
            },
            KeyCode::Char(c) => {
                proof {
                    lemma_char_keeps_range(*old(self), key, c, visible);
                }
                self.on_char(key, c, visible)
            },
            _ => self.to_notify(key.code),
        }
    }

    /// The tab that a key with Alt stands for.
    fn tab_of_key(key: KeyPress) -> (r: Option<usize>)
        ensures
            r == alt_tab(key),
    {
        if !key.alt {
            return None;
        }
        match key.code {
            KeyCode::Char('1') => Some(0),
            KeyCode::Char('2') => Some(1),
            KeyCode::Char('3') => Some(2),
            KeyCode::Char('4') => Some(3),
            KeyCode::Char('5') => Some(4),
            _ => None,
        }
    }

    /// Number of tabs.
    pub fn tab_count(&self) -> (r: usize)
        ensures
            r == tab_titles(self.notify.enabled).len(),
    {
        if self.notify.enabled {
            4
        } else {
            3
        }
    }

    /// A key press. `visible` is the number of rows of the key mapping that are shown,
    /// `pages_read` the page counter of the keyboard, if there is one.
    pub fn handle_key(&mut self, key: KeyPress, visible: usize, pages_read: Option<u64>) -> (r: Action)
        requires
            old(self).wf(),
        ensures
            key_handled(*old(self), key, visible, pages_read, *final(self), r),
            final(self).wf(),
    {
        match self.focus() {
            Focus::DevicePicker => self.on_device_picker_key(key.code),
            Focus::Help => {
                self.on_help_key(key.code);
                Action::Nothing
            },
            Focus::Hex => self.on_hex_key(key.code),
            Focus::Picker(kind) => act_in_picker(kind, key.code),
            Focus::Filter => self.on_filter_key(key.code),
            Focus::Modal => act_in_modal(key),
            Focus::Main => match App::tab_of_key(key) {
                Some(tab) => {
                    if tab < self.tab_count() {
                        let loads: TabLoads = self.switch_tab(tab, pages_read);
                        Action::EnterTab(loads)
                    } else {
                        Action::Nothing
                    }
                },
                None => self.on_tab_key(key, visible),
            },
        }
    }
}

/// Whether a text can stand in the hex input: at most six upper-case digits.
pub open spec fn is_hex_input(s: Seq<char>) -> bool {
    &&& s.len() <= 6
    &&& forall|i: int| 0 <= i < s.len() ==> '0' <= #[trigger] s[i] <= '9' || 'A' <= s[i] <= 'F'
}

/// Whatever is typed, the hex input holds at most six upper-case digits.
pub proof fn hex_input_stays_valid(input: Seq<char>, code: KeyCode)
    requires
        is_hex_input(input),
    ensures
        is_hex_input(hex_typed(input, code)),
{
    let new = hex_typed(input, code);
    assert forall|i: int| 0 <= i < new.len() implies '0' <= #[trigger] new[i] <= '9' || 'A'
        <= new[i] <= 'F' by {
        if i < input.len() {
            assert(new[i] == input[i]);
        }
    }
}

/// Up and down move by one row of the depth chart, and never off it.
pub proof fn chart_moves_by_rows(cursor: int)
    requires
        0 <= cursor < 66,
    ensures
        0 <= key_above(cursor) < 66,
        0 <= key_below(cursor) < 66,
        row_of(cursor) > 0 ==> row_of(key_above(cursor)) == row_of(cursor) - 1,
        row_of(cursor) == 0 ==> key_above(cursor) == cursor,
        row_of(cursor) < 4 ==> row_of(key_below(cursor)) == row_of(cursor) + 1,
        row_of(cursor) == 4 ==> key_below(cursor) == cursor,
{
}

/// While a popup has the keys, no key closes the program, switches the tab or moves the
/// selections behind it.
pub proof fn popups_take_the_keys(
    app: App,
    key: KeyPress,
    visible: usize,
    pages_read: Option<u64>,
    new: App,
    r: Action,
)
    requires
        focus(app) != Focus::Main,
        key_handled(app, key, visible, pages_read, new, r),
    ensures
        r != Action::Quit,
        !(r is EnterTab),
        new.tab == app.tab,
        new.selected == app.selected,
        new.depth_cursor == app.depth_cursor,
        new.key_mapping.selected == app.key_mapping.selected,
        new.depth_monitoring == app.depth_monitoring,
        new.status_msg == app.status_msg,
{
}

/// The selection of the device picker stays on an item.
pub proof fn picker_selection_stays_on_an_item(app: App, code: KeyCode)
    requires
        app.picker.selected < app.picker.items@.len(),
    ensures
        ({
            let new = device_picker_key(app, code).0.picker;
            new.selected < new.items@.len()
        }),
{
}

/// A rectangle of the screen.
#[derive(Debug, Clone, Copy, PartialEq, Eq, Structural)]
pub struct Area {
    pub x: u16,
    pub y: u16,
    pub width: u16,
    pub height: u16,
}

impl Area {
    /// Whether a position lies in the rectangle, which ends where coordinates end.
    pub open spec fn covers(self, column: u16, row: u16) -> bool {
        &&& self.x <= column < self.x + self.width
        &&& self.y <= row < self.y + self.height
        &&& column < u16::MAX
        &&& row < u16::MAX
    }

    /// Whether a position lies in the rectangle.
    pub fn contains(&self, column: u16, row: u16) -> (r: bool)
        ensures
            r == self.covers(column, row),
    {
        let right: u16 = self.x.saturating_add(self.width);
        let bottom: u16 = self.y.saturating_add(self.height);
        self.x <= column && column < right && self.y <= row && row < bottom
    }
}

/// Blanks and bar between two titles.
pub const TAB_GAP: u16 = 3;

/// Which of the titles from `i` on a column falls on, if the title at `i` starts at `at`.
pub open spec fn title_under(titles: Seq<Seq<char>>, i: int, at: int, column: int) -> Option<int>
    decreases titles.len() - i,
{
    if i >= titles.len() {
        None
    } else if at <= column < at + titles[i].len() {
        Some(i)
    } else {
        title_under(titles, i + 1, at + titles[i].len() + TAB_GAP, column)
    }
}

/// The tab that a click in the tab bar falls on. The titles start one column in, behind
/// the border of the bar.
pub open spec fn tab_clicked(notify: bool, bar: Area, column: u16) -> Option<int> {
    title_under(
        tab_titles(notify),
        0,
        1,
        if column > bar.x {
            column - bar.x - 1
        } else {
            0
        },
    )
}

/// The state after a click in the tab bar, but for the status line.
pub open spec fn after_bar_click(app: App, bar: Area, column: u16, row: u16, pages_read: Option<u64>) -> App {
    match bar_click(app, bar, column, row) {
        Some(tab) => tab_entered(fronted(app, tab as usize), pages_read),
        None => app,
    }
}

/// The tab that a click brings to the front.
pub open spec fn bar_click(app: App, bar: Area, column: u16, row: u16) -> Option<int> {
    if bar.covers(column, row) {
        tab_clicked(app.notify.enabled, bar, column)
    } else {
        None
    }
}

/// What a click in the tab bar asks for.
pub open spec fn bar_click_action(
    app: App,
    bar: Area,
    column: u16,
    row: u16,
    pages_read: Option<u64>,
) -> Action {
    match bar_click(app, bar, column, row) {
        Some(tab) => Action::EnterTab(tab_loads(fronted(app, tab as usize), pages_read)),
        None => Action::Nothing,
    }
}

/// The status line that a click in the tab bar sets.
pub open spec fn bar_click_status(app: App, bar: Area, column: u16, row: u16) -> Option<Seq<char>> {
    match bar_click(app, bar, column, row) {
        Some(tab) => if tab != app.tab {
            Some("Switched to tab "@ + dec(tab as nat))
        } else {
            None
        },
        None => None,
    }
}

/// The state after a click in the content: in the device tab it selects an entry.
pub open spec fn after_content_click(app: App, content: Area, column: u16, row: u16) -> App {
    let entry = if row > content.y {
        row - content.y - 1
    } else {
        0
    };
    if content.covers(column, row) && app.tab == 0 && entry < app.info_tags@.len() {
        App { selected: entry as usize, ..app }
    } else {
        app
    }
}

impl App {
    /// The titles of the tabs.
    pub fn tab_names(&self) -> (r: Vec<&'static str>)
        ensures
            r@.map_values(|t: &'static str| t@) == tab_titles(self.notify.enabled),
    {
        let mut names: Vec<&'static str> = vec!["Device Info", "Key Depth", "Key Mapping"];
        if self.notify.enabled {
            names.push("Notify");
        }
        assert(names@.map_values(|t: &'static str| t@) =~= tab_titles(self.notify.enabled));
        names
    }

    /// The tab that a column of the tab bar falls on.
    fn tab_at(&self, bar: Area, column: u16) -> (r: Option<usize>)
        ensures
            match r {
                Some(tab) => tab_clicked(self.notify.enabled, bar, column) == Some(tab as int)
                    && tab < 4 && (tab < 3 || self.notify.enabled),
                None => tab_clicked(self.notify.enabled, bar, column) is None,
            },
    {
        proof {
            reveal_strlit("Device Info");
            reveal_strlit("Key Depth");
            reveal_strlit("Key Mapping");
            reveal_strlit("Notify");
            reveal_with_fuel(title_under, 5);
        }
        let x: u16 = if column > bar.x {
            column - bar.x - 1
        } else {
            0
        };
        if 1 <= x && x < 12 {
            return Some(0);
        }
        if 15 <= x && x < 24 {
            return Some(1);
        }
        if 27 <= x && x < 38 {
            return Some(2);
        }
        if self.notify.enabled && 41 <= x && x < 47 {
            return Some(3);
        }
        None
    }

    /// A click in the tab bar.
    fn click_bar(&mut self, column: u16, row: u16, bar: Area, pages_read: Option<u64>) -> (r: Action)
        ensures
            r == bar_click_action(*old(self), bar, column, row, pages_read),
            shows(
                *final(self),
                after_bar_click(*old(self), bar, column, row, pages_read),
                bar_click_status(*old(self), bar, column, row),
            ),
            old(self).wf() ==> final(self).wf(),
    {
        if !bar.contains(column, row) {
            return Action::Nothing;
        }
        match self.tab_at(bar, column) {
            Some(tab) => {
                let old_tab: usize = self.tab;
                let loads: TabLoads = self.switch_tab(tab, pages_read);
                if old_tab != tab {
                    let mut text: String = "Switched to tab ".to_owned();
                    push_dec(&mut text, tab as u64);
                    self.status_msg = text;
                }
                Action::EnterTab(loads)
            },
            None => Action::Nothing,
        }
    }

    /// A click in the content.
    fn click_content(&mut self, column: u16, row: u16, content: Area)
        ensures
            *final(self) == after_content_click(*old(self), content, column, row),
            old(self).wf() ==> final(self).wf(),
    {
        if content.contains(column, row) {
            let entry: usize = if row > content.y {
                (row - content.y - 1) as usize
            } else {
                0
            };
            if self.tab == 0 && entry < self.info_tags.len() {
                self.selected = entry;
            }
        }
    }

    /// A click. It may bring a tab to the front, or select an entry of the device tab.
    pub fn click(
        &mut self,
        column: u16,
        row: u16,
        bar: Area,
        content: Area,
        pages_read: Option<u64>,
    ) -> (r: Action)
        ensures
            r == bar_click_action(*old(self), bar, column, row, pages_read),
            shows(
                *final(self),
                after_content_click(
                    after_bar_click(*old(self), bar, column, row, pages_read),
                    content,
                    column,
                    row,
                ),
                bar_click_status(*old(self), bar, column, row),
            ),
            old(self).wf() ==> final(self).wf(),
    {
        let action: Action = self.click_bar(column, row, bar, pages_read);
        self.click_content(column, row, content);
        action
    }
}

/// What the mouse wheel does.
pub fn wheel(up: bool, column: u16, row: u16, content: Area) -> (r: Action)
    ensures
        r == (if !content.covers(column, row) {
            Action::Nothing
        } else if up {
            Action::ScrollUp(1)
        } else {
            Action::ScrollDown(1)
        }),
{
    if !content.contains(column, row) {
        Action::Nothing
    } else if up {
        Action::ScrollUp(1)
    } else {
        Action::ScrollDown(1)
    }
}

/// What is said when a key is selected for the time series, or deselected.
pub fn selection_notice(label: &str, selected: bool) -> (r: String)
    ensures
        r@ == (if selected {
            "Selected Key "@ + label@ + " for time series"@
        } else {
            "Deselected Key "@ + label@
        }),
{
    if selected {
        let mut out: String = two("Selected Key ", label);
        out.append(" for time series");
        out
    } else {
        two("Deselected Key ", label)
    }
}

/// The selected keys once a key is selected, or deselected if it was.
pub open spec fn toggled(keys: Seq<usize>, key: usize) -> Seq<usize> {
    if keys.contains(key) {
        keys.remove(keys.index_of(key))
    } else {
        keys.push(key)
    }
}

impl App {
    /// Select a key for the time series, or deselect it if it is selected, and say so.
    /// `label` is what the key is called.
    pub fn toggle_key_selection(&mut self, key: usize, label: &str)
        requires
            old(self).wf(),
        ensures
            final(self).wf(),
            final(self).selected_keys@ == toggled(old(self).selected_keys@, key),
            shows(
                *final(self),
                App { selected_keys: final(self).selected_keys, ..*old(self) },
                Some(
                    if old(self).selected_keys@.contains(key) {
                        "Deselected Key "@ + label@
                    } else {
                        "Selected Key "@ + label@ + " for time series"@
                    },
                ),
            ),
    {
        let ghost keys = self.selected_keys@;
        let n: usize = self.selected_keys.len();
        let mut i: usize = 0;
        while i < n && self.selected_keys[i] != key
            invariant
                i <= n == keys.len(),
                self.selected_keys@ == keys,
                *self == *old(self),
                forall|k: int| 0 <= k < i ==> keys[k] != key,
            decreases n - i,
        {
            i += 1;
        }
        proof {
            lemma_toggled(keys, key);
        }
        if i < n {
            assert(keys[i as int] == key);
            assert(keys.index_of(key) == i);
            self.selected_keys.remove(i);
            self.status_msg = selection_notice(label, false);
        } else {
            assert(!keys.contains(key));
            self.selected_keys.push(key);
            self.status_msg = selection_notice(label, true);
        }
    }
}

/// Selecting or deselecting a key keeps each key listed once.
proof fn lemma_toggled(keys: Seq<usize>, key: usize)
    requires
        keys.no_duplicates(),
    ensures
        toggled(keys, key).no_duplicates(),
{
    let new = toggled(keys, key);
    if keys.contains(key) {
        let at = keys.index_of(key);
        assert forall|a: int, b: int| 0 <= a < b < new.len() implies new[a] != new[b] by {
            let x = if a < at { a } else { a + 1 };
            let y = if b < at { b } else { b + 1 };
            assert(new[a] == keys[x] && new[b] == keys[y]);
        }
    }
}

/// Toggling a key changes whether that key is selected, and no other.
pub proof fn toggling_is_about_one_key(keys: Seq<usize>, key: usize, other: usize)
    requires
        keys.no_duplicates(),
        other != key,
    ensures
        toggled(keys, key).contains(key) == !keys.contains(key),
        toggled(keys, key).contains(other) == keys.contains(other),
        toggled(keys, key).no_duplicates(),
{
    lemma_toggled(keys, key);
    let new = toggled(keys, key);
    if keys.contains(key) {
        let at = keys.index_of(key);
        assert(keys[at] == key);
        if new.contains(key) {
            let k = choose|k: int| 0 <= k < new.len() && new[k] == key;
            let x = if k < at { k } else { k + 1 };
            assert(keys[x] == key);
        }
        if new.contains(other) {
            let k = choose|k: int| 0 <= k < new.len() && new[k] == other;
            let x = if k < at { k } else { k + 1 };
            assert(keys[x] == other);
        }
        if keys.contains(other) {
            let k = choose|k: int| 0 <= k < keys.len() && keys[k] == other;
            let x = if k < at { k } else { k - 1 };
            assert(new[x] == other);
        }
    } else {
        assert(new[keys.len() as int] == key);
        if keys.contains(other) {
            let k = choose|k: int| 0 <= k < keys.len() && keys[k] == other;
            assert(new[k] == other);
        }
        if new.contains(other) {
            let k = choose|k: int| 0 <= k < new.len() && new[k] == other;
            assert(keys[k] == other);
        }
    }
}

} // verus!
