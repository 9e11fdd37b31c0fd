//! What the keys of the terminal interface are for.

use crate::led::LED_MODE_MAX;
use crate::protocol::Profile;
use crate::tui_input::{
    adjust, is_hex_digit, upper_digit, Action, CalField, KeyCode, KeyPress, ModalAction,
    PickerKind, SleepField,
};
use crate::tui_state::{
    App, DepthViewMode, DevicePicker, EditableOptions, FirmwareSettings, HexColorTarget, HexInput,
    InfoTag, KeyMappingTab, KeyMappingView,
};
use vstd::prelude::*;

verus! {

/// Whether a level that is shown as `shown` may be set to `set` by a step of `step`: it
/// goes the way of the key by the whole step, and stops at the bounds zero and `top`.
pub open spec fn moves(shown: int, set: int, top: int, step: int, up: bool) -> bool {
    &&& 0 <= set <= top
    &&& up ==> set == shown + step || (set == top && shown + step > top)
    &&& !up ==> set == shown - step || (set == 0 && shown < step) || (set == top && shown - step
        > top)
}

/// What the level of LEDs called speed is shown as: the firmware counts it the other way.
pub open spec fn shown_speed(speed: u8) -> int {
    if speed >= 4 {
        0
    } else {
        4 - speed
    }
}

/// Whether an LED mode may be followed by another: the next number that way, if there is
/// one.
pub open spec fn mode_moves(shown: u8, set: u8, up: bool) -> bool {
    &&& up && shown < LED_MODE_MAX ==> set == shown + 1
    &&& up && shown == LED_MODE_MAX ==> set == shown
    &&& !up && shown > 0 ==> set == shown - 1
    &&& !up && shown == 0 ==> set == shown
}

/// Whether an action sets a level of the device tab as the key in hand should.
pub open spec fn level_adjusted(
    info: FirmwareSettings,
    tag: InfoTag,
    up: bool,
    coarse: bool,
    r: Action,
) -> bool {
    let ten = if coarse {
        10int
    } else {
        1int
    };
    &&& tag == InfoTag::Debounce ==> r is SetDebounce && moves(
        info.debounce as int,
        r->SetDebounce_0 as int,
        25,
        if coarse {
            5
        } else {
            1
        },
        up,
    )
    &&& tag == InfoTag::LedBrightness ==> r is SetBrightness && moves(
        info.led.brightness as int,
        r->SetBrightness_0 as int,
        4,
        1,
        up,
    )
    &&& tag == InfoTag::SideBrightness ==> r is SetSideBrightness && moves(
        info.side.brightness as int,
        r->SetSideBrightness_0 as int,
        4,
        1,
        up,
    )
    &&& tag == InfoTag::LedSpeed ==> r is SetSpeed && moves(
        shown_speed(info.led.speed),
        r->SetSpeed_0 as int,
        4,
        1,
        up,
    )
    &&& tag == InfoTag::SideSpeed ==> r is SetSideSpeed && moves(
        shown_speed(info.side.speed),
        r->SetSideSpeed_0 as int,
        4,
        1,
        up,
    )
    &&& tag == InfoTag::LedMode && info.led.mode <= LED_MODE_MAX ==> r is SetLedMode && mode_moves(
        info.led.mode,
        r->SetLedMode_0,
        up,
    )
    &&& tag == InfoTag::SideMode && info.side.mode <= LED_MODE_MAX ==> r is SetSideMode
        && mode_moves(info.side.mode, r->SetSideMode_0, up)
    &&& tag == InfoTag::LedRed ==> r is SetColor && moves(
        info.led.r as int,
        r->SetColor_0 as int,
        255,
        ten,
        up,
    ) && r->SetColor_1 == info.led.g && r->SetColor_2 == info.led.b
    &&& tag == InfoTag::LedGreen ==> r is SetColor && moves(
        info.led.g as int,
        r->SetColor_1 as int,
        255,
        ten,
        up,
    ) && r->SetColor_0 == info.led.r && r->SetColor_2 == info.led.b
    &&& tag == InfoTag::LedBlue ==> r is SetColor && moves(
        info.led.b as int,
        r->SetColor_2 as int,
        255,
        ten,
        up,
    ) && r->SetColor_0 == info.led.r && r->SetColor_1 == info.led.g
    &&& tag == InfoTag::SideRed ==> r is SetSideColor && moves(
        info.side.r as int,
        r->SetSideColor_0 as int,
        255,
        ten,
        up,
    ) && r->SetSideColor_1 == info.side.g && r->SetSideColor_2 == info.side.b
    &&& tag == InfoTag::SideGreen ==> r is SetSideColor && moves(
        info.side.g as int,
        r->SetSideColor_1 as int,
        255,
        ten,
        up,
    ) && r->SetSideColor_0 == info.side.r && r->SetSideColor_2 == info.side.b
    &&& tag == InfoTag::SideBlue ==> r is SetSideColor && moves(
        info.side.b as int,
        r->SetSideColor_2 as int,
        255,
        ten,
        up,
    ) && r->SetSideColor_0 == info.side.r && r->SetSideColor_1 == info.side.g
}

/// Whether an action sets an option of the device tab as the key in hand should. While no
/// options are known there is nothing to set.
pub open spec fn option_adjusted(
    options: Option<EditableOptions>,
    tag: InfoTag,
    up: bool,
    r: Action,
) -> bool {
    &&& tag == InfoTag::FnLayer ==> match options {
        Some(o) => r is SetFnLayer && moves(o.fn_layer as int, r->SetFnLayer_0 as int, 1, 1, up),
        None => r is Nothing,
    }
    &&& tag == InfoTag::RtStability ==> match options {
        Some(o) => r is SetRtStability && moves(
            o.rt_stability as int,
            r->SetRtStability_0 as int,
            5,
            1,
            up,
        ),
        None => r is Nothing,
    }
}

/// Whether an action changes a sleep time as the key in hand should: that sleep time, by a
/// minute, or by five if the step is coarse.
pub open spec fn sleep_adjusted(tag: InfoTag, up: bool, coarse: bool, r: Action) -> bool {
    let field = match tag {
        InfoTag::SleepIdleBt => Some(SleepField::IdleBt),
        InfoTag::SleepIdle24g => Some(SleepField::Idle24g),
        InfoTag::SleepDeepBt => Some(SleepField::DeepBt),
        InfoTag::SleepDeep24g => Some(SleepField::Deep24g),
        _ => None,
    };
    field is Some ==> {
        &&& r is UpdateSleepTime
        &&& r->UpdateSleepTime_0 == field->0
        &&& up == (r->UpdateSleepTime_1 > 0)
        &&& r->UpdateSleepTime_1 == 60 || r->UpdateSleepTime_1 == -60 || coarse
        &&& r->UpdateSleepTime_1 == 300 || r->UpdateSleepTime_1 == -300 || !coarse
    }
}

/// Whether an action goes on in a list as the key in hand should. The polling rates are
/// listed fastest first, so that a higher rate is the one before.
pub open spec fn cycled(layer: u8, tag: InfoTag, up: bool, coarse: bool, r: Action) -> bool {
    let way = if up {
        1int
    } else {
        -1int
    };
    let part = match tag {
        InfoTag::ScreenGainR => Some(CalField::GainR),
        InfoTag::ScreenGainG => Some(CalField::GainG),
        InfoTag::ScreenGainB => Some(CalField::GainB),
        InfoTag::ScreenGammaR => Some(CalField::GammaR),
        InfoTag::ScreenGammaG => Some(CalField::GammaG),
        InfoTag::ScreenGammaB => Some(CalField::GammaB),
        InfoTag::ScreenSaturation => Some(CalField::Saturation),
        _ => None,
    };
    &&& tag == InfoTag::Profile ==> r is StepProfile && r->StepProfile_0 == way
    &&& tag == InfoTag::PollingRate ==> r is CyclePollingRate && r->CyclePollingRate_0 == -way
    &&& tag == InfoTag::AudioDevice ==> r is CycleAudioDevice && r->CycleAudioDevice_0 == way
    &&& tag == InfoTag::AudioVizStyle ==> r is CycleAudioStyle && r->CycleAudioStyle_0 == way
    &&& tag == InfoTag::AudioRate ==> r is CycleAudioRate && r->CycleAudioRate_0 == way
    &&& tag == InfoTag::ScreenRate ==> r is CycleScreenRate && r->CycleScreenRate_0 == way
    &&& tag == InfoTag::ScreenRegion ==> r is CycleScreenRegion && r->CycleScreenRegion_0 == way
    &&& tag == InfoTag::ScreenTestSwatch ==> r is CycleTestSwatch && r->CycleTestSwatch_0 == way
    &&& part is Some ==> r is AdjustCalibration && r->AdjustCalibration_0 == part->0
        && r->AdjustCalibration_1 == way && r->AdjustCalibration_2 == coarse
    &&& tag == InfoTag::UserPicLayer && layer < 4 ==> {
        &&& r is SetUserPicLayer
        &&& r->SetUserPicLayer_0 < 4
        &&& up && layer < 3 ==> r->SetUserPicLayer_0 == layer + 1
        &&& up && layer == 3 ==> r->SetUserPicLayer_0 == 0
        &&& !up && layer > 0 ==> r->SetUserPicLayer_0 == layer - 1
        &&& !up && layer == 0 ==> r->SetUserPicLayer_0 == 3
    }
}

/// Whether an action turns a switch of the device tab, or leaves an entry alone that has
/// nothing to step through.
pub open spec fn switched(tag: InfoTag, r: Action) -> bool {
    &&& tag == InfoTag::LedDazzle ==> r is ToggleDazzle
    &&& tag == InfoTag::SideDazzle ==> r is ToggleSideDazzle
    &&& tag == InfoTag::WasdSwap ==> r is ToggleWasdSwap
    &&& tag == InfoTag::AntiMistouch ==> r is ToggleAntiMistouch
    &&& (tag == InfoTag::ReadOnly || tag == InfoTag::Device || tag == InfoTag::FirmwareCheck || tag
        == InfoTag::LedColorHex || tag == InfoTag::SideColorHex) ==> r is Nothing
}

/// Right takes an entry of the device tab one step up and left one step down, within the
/// bounds of that entry, and neither touches another entry: of a color, only the component
/// that is selected changes.
pub proof fn right_raises_and_left_lowers(
    info: FirmwareSettings,
    options: Option<EditableOptions>,
    layer: u8,
    tag: InfoTag,
    up: bool,
    coarse: bool,
    r: Action,
)
    requires
        call_ensures(adjust, (&info, &options, layer, tag, up, coarse), r),
    ensures
        level_adjusted(info, tag, up, coarse, r),
        option_adjusted(options, tag, up, r),
        sleep_adjusted(tag, up, coarse, r),
        cycled(layer, tag, up, coarse, r),
        switched(tag, r),
{
}

/// Whether no popup is open, so that the tab in front has the keys.
pub open spec fn no_popup(app: App) -> bool {
    &&& !app.picker.open
    &&& !app.show_help
    &&& !app.hex.editing
    &&& app.modal is None
    &&& !app.key_mapping.filter_open
}

/// The arrow keys, and the letters that stand for them, adjust the entry that is selected
/// in the device tab, coarsely with Shift, and change nothing else.
pub proof fn arrows_adjust_the_selected_entry(
    app: &mut App,
    key: KeyPress,
    visible: usize,
    pages_read: Option<u64>,
    r: Action,
)
    requires
        call_ensures(App::handle_key, (app, key, visible, pages_read), r),
        no_popup(*old(app)),
        old(app).wf(),
        old(app).tab == 0,
        old(app).selected < old(app).info_tags@.len(),
        key.code == KeyCode::Left || key.code == KeyCode::Char('h') || key.code == KeyCode::Right
            || key.code == KeyCode::Char('l'),
    ensures
        ({
            let up = key.code == KeyCode::Right || key.code == KeyCode::Char('l');
            let tag = old(app).info_tags@[old(app).selected as int];
            &&& level_adjusted(old(app).info, tag, up, key.shift, r)
            &&& option_adjusted(old(app).options, tag, up, r)
            &&& sleep_adjusted(tag, up, key.shift, r)
            &&& cycled(old(app).userpic_layer, tag, up, key.shift, r)
            &&& switched(tag, r)
        }),
        *final(app) == *old(app),
{
}

/// Whether a key press is no choice of a tab.
pub open spec fn alt_free(key: KeyPress) -> bool {
    key.alt ==> !(key.code is Char)
}

/// While the device picker is open, up and down move the selection by one device and stop at
/// the ends of the list, Escape and `d` close it, and Enter connects to the device that is
/// selected. Nothing else changes, and no other key does anything.
pub proof fn the_picker_moves_by_one(
    app: &mut App,
    key: KeyPress,
    visible: usize,
    pages_read: Option<u64>,
    r: Action,
)
    requires
        call_ensures(App::handle_key, (app, key, visible, pages_read), r),
        old(app).wf(),
        old(app).picker.open,
        old(app).picker.selected < old(app).picker.items@.len(),
    ensures
        (key.code == KeyCode::Up || key.code == KeyCode::Char('k')) && old(app).picker.selected > 0
            ==> final(app).picker.selected == old(app).picker.selected - 1,
        (key.code == KeyCode::Down || key.code == KeyCode::Char('j'))
            && old(app).picker.selected + 1 < old(app).picker.items@.len()
            ==> final(app).picker.selected == old(app).picker.selected + 1,
        final(app).picker.selected < final(app).picker.items@.len(),
        final(app).picker.selected != old(app).picker.selected ==> key.code == KeyCode::Up
            || key.code == KeyCode::Char('k') || key.code == KeyCode::Down
            || key.code == KeyCode::Char('j'),
        final(app).picker.open == !(key.code == KeyCode::Esc || key.code == KeyCode::Char('d')),
        r == (if key.code == KeyCode::Enter { Action::ConnectToPicked } else { Action::Nothing }),
        *final(app) == (App { picker: DevicePicker { open: final(app).picker.open, selected:
            final(app).picker.selected, ..old(app).picker }, ..*old(app) }),
{
    assert(old(app).picker.items.len() == old(app).picker.items@.len());
}

/// While the help is open, the keys that open it and Escape close it, and no other key does
/// anything.
pub proof fn help_closes_again(
    app: &mut App,
    key: KeyPress,
    visible: usize,
    pages_read: Option<u64>,
    r: Action,
)
    requires
        call_ensures(App::handle_key, (app, key, visible, pages_read), r),
        old(app).wf(),
        !old(app).picker.open,
        old(app).show_help,
    ensures
        final(app).show_help == !(key.code == KeyCode::Char('?') || key.code == KeyCode::F(1)
            || key.code == KeyCode::Esc),
        r == Action::Nothing,
        *final(app) == (App { show_help: final(app).show_help, ..*old(app) }),
{
}

/// The hex input takes a digit at its end, in upper case, up to six of them, and backspace
/// takes the last one away. Enter applies it, Escape gives it up, and nothing else changes.
pub proof fn hex_input_takes_six_digits(
    app: &mut App,
    key: KeyPress,
    visible: usize,
    pages_read: Option<u64>,
    r: Action,
)
    requires
        call_ensures(App::handle_key, (app, key, visible, pages_read), r),
        old(app).wf(),
        !old(app).picker.open,
        !old(app).show_help,
        old(app).hex.editing,
    ensures
        ({
            let before = old(app).hex.input@;
            let after = final(app).hex.input@;
            match key.code { KeyCode::Char(c) => { &&& ('0' <= c <= '9' || 'A' <= c <= 'F')
                && before.len() < 6 ==> after == before.push(c) &&& 'a' <= c <= 'f'
                && before.len() < 6 ==> after.len() == before.len() + 1
                && after.drop_last() == before
                && after.last() as u32 + 32 == c as u32 &&& !('0' <= c <= '9' || 'A' <= c <= 'F'
                || 'a' <= c <= 'f') || before.len() >= 6
                ==> after == before }, KeyCode::Backspace => { &&& before.len() > 0
                ==> after == before.take(before.len() - 1) &&& before.len() == 0
                ==> after == before }, _ => after == before }
        }),
        r == (if key.code == KeyCode::Enter { Action::ApplyHexInput } else if key.code ==
            KeyCode::Esc { Action::CancelHexInput } else { Action::Nothing }),
        *final(app) == (App { hex: HexInput { input: final(app).hex.input, ..old(app).hex },
            ..*old(app) }),
{
    let before = old(app).hex.input@;
    match key.code {
        KeyCode::Char(c) => {
            if is_hex_digit(c) && before.len() < 6 {
                assert(before.push(upper_digit(c)).drop_last() =~= before);
            }
        },
        KeyCode::Backspace => {
            if before.len() > 0 {
                assert(before.drop_last() =~= before.take(before.len() - 1));
            }
        },
        _ => {},
    }
}

/// In the filter of the key mapping, up and down move among its four fields, left and right
/// change the field in focus back and forth, and Escape, Enter and `f` close it.
pub proof fn the_filter_moves_by_one(
    app: &mut App,
    key: KeyPress,
    visible: usize,
    pages_read: Option<u64>,
    r: Action,
)
    requires
        call_ensures(App::handle_key, (app, key, visible, pages_read), r),
        old(app).wf(),
        !old(app).picker.open,
        !old(app).show_help,
        !old(app).hex.editing,
        old(app).modal is None,
        old(app).key_mapping.filter_open,
    ensures
        (key.code == KeyCode::Up || key.code == KeyCode::Char('k'))
            && old(app).key_mapping.filter_field > 0
            ==> final(app).key_mapping.filter_field == old(app).key_mapping.filter_field - 1,
        (key.code == KeyCode::Down || key.code == KeyCode::Char('j'))
            && old(app).key_mapping.filter_field < 3
            ==> final(app).key_mapping.filter_field == old(app).key_mapping.filter_field + 1,
        final(app).key_mapping.filter_field <= 3,
        final(app).key_mapping.filter_field != old(app).key_mapping.filter_field
            ==> key.code == KeyCode::Up || key.code == KeyCode::Char('k')
            || key.code == KeyCode::Down || key.code == KeyCode::Char('j'),
        final(app).key_mapping.filter_open == !(key.code == KeyCode::Esc
            || key.code == KeyCode::Enter || key.code == KeyCode::Char('f')),
        key.code == KeyCode::Left || key.code == KeyCode::Char('h')
            ==> r == Action::CycleFilterField(false),
        key.code == KeyCode::Right || key.code == KeyCode::Char('l')
            ==> r == Action::CycleFilterField(true),
        r is CycleFilterField || r is Nothing,
        r is CycleFilterField ==> key.code == KeyCode::Left || key.code == KeyCode::Char('h')
            || key.code == KeyCode::Right || key.code == KeyCode::Char('l'),
        *final(app) == (App { key_mapping: KeyMappingTab { filter_open:
            final(app).key_mapping.filter_open, filter_field: final(app).key_mapping.filter_field,
            ..old(app).key_mapping }, ..*old(app) }),
{
}

/// In the trigger editor without a picker, Tab and down go to the next field, Shift-Tab and
/// up to the one before, left and right change the field, coarsely with Shift, Enter
/// activates it, Ctrl-S saves and Escape closes. The interface behind it stays as it is.
pub proof fn the_trigger_editor_takes_the_keys(
    app: &mut App,
    key: KeyPress,
    visible: usize,
    pages_read: Option<u64>,
    r: Action,
)
    requires
        call_ensures(App::handle_key, (app, key, visible, pages_read), r),
        old(app).wf(),
        !old(app).picker.open,
        !old(app).show_help,
        !old(app).hex.editing,
        !old(app).key_mapping.filter_open,
        old(app).modal matches Some(m) && !m.mode_picker && !m.key_picker && !m.output_picker
            && !m.dks_action_picker,
    ensures
        *final(app) == *old(app),
        key.code == KeyCode::Tab || key.code == KeyCode::Down
            ==> r == Action::Modal(ModalAction::NextField),
        key.code == KeyCode::BackTab || key.code == KeyCode::Up
            ==> r == Action::Modal(ModalAction::PrevField),
        key.code == KeyCode::Left || key.code == KeyCode::Char('h')
            ==> r == Action::Modal(ModalAction::Decrement(key.shift)),
        key.code == KeyCode::Right || key.code == KeyCode::Char('l')
            ==> r == Action::Modal(ModalAction::Increment(key.shift)),
        key.code == KeyCode::Enter ==> r == Action::Modal(ModalAction::Activate),
        key.code == KeyCode::Esc ==> r == Action::Modal(ModalAction::Close),
        r == Action::Modal(ModalAction::Save) <==> key.code == KeyCode::Char('s') && key.control,
        r is Modal || r is Nothing,
{
}

/// A picker of the trigger editor confirms with Enter, closes with Escape and moves with the
/// arrow keys; of several that are open, the mode picker comes first, the key picker second,
/// the output picker third. In the output picker letters type into the filter and Tab stages
/// a key; in the others `j` and `k` move. The interface behind it stays as it is.
pub proof fn pickers_take_the_keys(
    app: &mut App,
    key: KeyPress,
    visible: usize,
    pages_read: Option<u64>,
    r: Action,
)
    requires
        call_ensures(App::handle_key, (app, key, visible, pages_read), r),
        old(app).wf(),
        !old(app).picker.open,
        !old(app).show_help,
        !old(app).hex.editing,
        old(app).modal matches Some(m) && (m.mode_picker || m.key_picker || m.output_picker
            || m.dks_action_picker),
    ensures
        *final(app) == *old(app),
        ({
            let m = old(app).modal->0;
            let kind = if m.mode_picker { PickerKind::Mode } else if m.key_picker { PickerKind::Key
                } else if m.output_picker { PickerKind::Output } else { PickerKind::DksAction };
            let typed = kind == PickerKind::Output;
            &&& key.code == KeyCode::Enter ==> r == Action::Modal(ModalAction::Confirm(kind))
            &&& key.code == KeyCode::Esc ==> r == Action::Modal(ModalAction::ClosePicker(kind))
            &&& key.code == KeyCode::Up || (key.code == KeyCode::Char('k') && !typed)
                ==> r == Action::Modal(ModalAction::PickerUp(kind))
            &&& key.code == KeyCode::Down || (key.code == KeyCode::Char('j') && !typed)
                ==> r == Action::Modal(ModalAction::PickerDown(kind))
            &&& key.code == KeyCode::Tab ==> r == (if typed {
                Action::Modal(ModalAction::ToggleChordKey) } else { Action::Nothing })
            &&& key.code == KeyCode::Backspace
                ==> r == (if typed { Action::Modal(ModalAction::PopFilter) } else { Action::Nothing
                })
            &&& key.code is Char && typed
                ==> r == Action::Modal(ModalAction::PushFilter(key.code->Char_0))
            &&& key.code is Char && !typed ==> r is Nothing || key.code == KeyCode::Char('k')
                || key.code == KeyCode::Char('j')
        }),
{
}

/// Wherever no popup is open, `q` leaves, `?` and F1 open the help, and `r` reads everything
/// again; Escape leaves too, unless the notification tab has a use for it.
pub proof fn quit_help_and_refresh(
    app: &mut App,
    key: KeyPress,
    visible: usize,
    pages_read: Option<u64>,
    r: Action,
)
    requires
        call_ensures(App::handle_key, (app, key, visible, pages_read), r),
        old(app).wf(),
        no_popup(*old(app)),
        alt_free(key),
        key.code == KeyCode::Char('q') || key.code == KeyCode::Char('r')
            || key.code == KeyCode::Char('?') || key.code == KeyCode::F(1)
            || key.code == KeyCode::Esc,
    ensures
        key.code == KeyCode::Char('q') ==> r == Action::Quit && *final(app) == *old(app),
        key.code == KeyCode::Char('r') ==> r == Action::Refresh && *final(app) == *old(app),
        key.code == KeyCode::Char('?') || key.code == KeyCode::F(1) ==> r == Action::Nothing
            && *final(app) == (App { show_help: true, ..*old(app) }),
        key.code == KeyCode::Esc && (old(app).tab != 3 || !old(app).notify.enabled
            || old(app).notify.effect_list_focused) ==> r == Action::Quit
            && *final(app) == *old(app),
        key.code == KeyCode::Esc && old(app).tab == 3 && old(app).notify.enabled
            && !old(app).notify.effect_list_focused ==> r == Action::Notify(KeyCode::Esc)
            && *final(app) == *old(app),
{
}

/// `m` turns the depth reports on if they were off and off if they were on, and says which.
pub proof fn monitoring_is_toggled(
    app: &mut App,
    key: KeyPress,
    visible: usize,
    pages_read: Option<u64>,
    r: Action,
)
    requires
        call_ensures(App::handle_key, (app, key, visible, pages_read), r),
        old(app).wf(),
        no_popup(*old(app)),
        alt_free(key),
        key.code == KeyCode::Char('m'),
    ensures
        final(app).depth_monitoring == !old(app).depth_monitoring,
        r == Action::ReportDepths(final(app).depth_monitoring),
        final(app).status_msg@ == (if final(app).depth_monitoring { "Key depth monitoring ENABLED"@
            } else { "Key depth monitoring DISABLED"@ }),
        *final(app) == (App { depth_monitoring: final(app).depth_monitoring, status_msg:
            final(app).status_msg, ..*old(app) }),
{
}

/// Off the device tab, `c` connects, and `d` opens the device picker and looks for devices.
pub proof fn connecting_and_picking(
    app: &mut App,
    key: KeyPress,
    visible: usize,
    pages_read: Option<u64>,
    r: Action,
)
    requires
        call_ensures(App::handle_key, (app, key, visible, pages_read), r),
        old(app).wf(),
        no_popup(*old(app)),
        alt_free(key),
        old(app).tab != 0,
        key.code == KeyCode::Char('c') || key.code == KeyCode::Char('d'),
    ensures
        key.code == KeyCode::Char('c') ==> r == Action::Connect && *final(app) == *old(app),
        key.code == KeyCode::Char('d') ==> r == Action::ScanDevices
            && *final(app) == (App { picker: DevicePicker { open: true, ..old(app).picker },
            ..*old(app) }),
{
}

/// Off the device tab, the digits one to four set the profile of that number if Ctrl is
/// held, and Ctrl-P goes to the next.
pub proof fn control_digits_set_profiles(
    app: &mut App,
    key: KeyPress,
    visible: usize,
    pages_read: Option<u64>,
    r: Action,
)
    requires
        call_ensures(App::handle_key, (app, key, visible, pages_read), r),
        old(app).wf(),
        no_popup(*old(app)),
        !key.alt,
        key.control,
        old(app).tab != 0,
        key.code == KeyCode::Char('1') || key.code == KeyCode::Char('2')
            || key.code == KeyCode::Char('3') || key.code == KeyCode::Char('4')
            || key.code == KeyCode::Char('p'),
    ensures
        key.code == KeyCode::Char('1') ==> r == Action::SetProfile(Profile::First),
        key.code == KeyCode::Char('2') ==> r == Action::SetProfile(Profile::Second),
        key.code == KeyCode::Char('3') ==> r == Action::SetProfile(Profile::Third),
        key.code == KeyCode::Char('4') ==> r == Action::SetProfile(Profile::Fourth),
        key.code == KeyCode::Char('p') ==> r == Action::CycleProfile,
        *final(app) == *old(app),
{
}

/// In the device tab, and in the time series, up and down move the selection by one entry
/// and stop at the ends; nothing else moves it, and it moves nothing else.
pub proof fn up_and_down_select_entries(
    app: &mut App,
    key: KeyPress,
    visible: usize,
    pages_read: Option<u64>,
    r: Action,
)
    requires
        call_ensures(App::handle_key, (app, key, visible, pages_read), r),
        old(app).wf(),
        no_popup(*old(app)),
        old(app).tab == 0 || (old(app).tab == 1
            && old(app).depth_view_mode == DepthViewMode::TimeSeries),
        key.code == KeyCode::Up || key.code == KeyCode::Char('k') || key.code == KeyCode::Down
            || key.code == KeyCode::Char('j'),
        old(app).selected < old(app).info_tags@.len(),
    ensures
        r == Action::Nothing,
        (key.code == KeyCode::Up || key.code == KeyCode::Char('k')) && old(app).selected > 0
            ==> final(app).selected == old(app).selected - 1,
        (key.code == KeyCode::Down || key.code == KeyCode::Char('j'))
            && old(app).selected + 1 < old(app).info_tags@.len()
            ==> final(app).selected == old(app).selected + 1,
        final(app).selected < old(app).info_tags@.len(),
        (key.code == KeyCode::Up || key.code == KeyCode::Char('k'))
            ==> final(app).selected <= old(app).selected,
        (key.code == KeyCode::Down || key.code == KeyCode::Char('j'))
            ==> final(app).selected >= old(app).selected,
        *final(app) == (App { selected: final(app).selected, ..*old(app) }),
{
    assert(old(app).info_tags.len() == old(app).info_tags@.len());
}

/// In the list of the key mapping, up and down move the selection by one row and the page
/// keys by ten, within the rows that are shown, and the list scrolls by as much.
pub proof fn up_and_down_select_rows(
    app: &mut App,
    key: KeyPress,
    visible: usize,
    pages_read: Option<u64>,
    r: Action,
)
    requires
        call_ensures(App::handle_key, (app, key, visible, pages_read), r),
        old(app).wf(),
        no_popup(*old(app)),
        old(app).tab == 2,
        old(app).key_mapping.view == KeyMappingView::List,
        old(app).key_mapping.selected < visible,
        key.code == KeyCode::Up || key.code == KeyCode::Char('k') || key.code == KeyCode::Down
            || key.code == KeyCode::Char('j') || key.code == KeyCode::PageUp
            || key.code == KeyCode::PageDown,
    ensures
        ({
            let was = old(app).key_mapping.selected;
            let is = final(app).key_mapping.selected;
            &&& key.code == KeyCode::Up || key.code == KeyCode::Char('k') ==> (was > 0
                ==> is == was - 1 && r == Action::ScrollUp(1)) && (was == 0 ==> is == 0
                && r == Action::Nothing)
            &&& key.code == KeyCode::Down || key.code == KeyCode::Char('j') ==> (was + 1 < visible
                ==> is == was + 1 && r == Action::ScrollDown(1)) && (was + 1 == visible
                ==> is == was && r == Action::Nothing)
            &&& key.code == KeyCode::PageUp ==> (was >= 10 ==> is == was - 10) && (was < 10
                ==> is == 0) && r == Action::ScrollUp(10)
            &&& key.code == KeyCode::PageDown ==> (was + 10 < visible ==> is == was + 10)
                && (was + 10 >= visible ==> is == visible - 1) && r == Action::ScrollDown(10)
            &&& is < visible
        }),
        *final(app) == (App { key_mapping: KeyMappingTab { selected:
            final(app).key_mapping.selected, ..old(app).key_mapping }, ..*old(app) }),
{
}

/// In the layout of the key mapping, each arrow key moves one step its own way.
pub proof fn arrows_move_in_the_layout(
    app: &mut App,
    key: KeyPress,
    visible: usize,
    pages_read: Option<u64>,
    r: Action,
)
    requires
        call_ensures(App::handle_key, (app, key, visible, pages_read), r),
        old(app).wf(),
        no_popup(*old(app)),
        old(app).tab == 2,
        old(app).key_mapping.view == KeyMappingView::Layout,
    ensures
        key.code == KeyCode::Up || key.code == KeyCode::Char('k')
            ==> r == Action::LayoutMove(0, -1i8),
        key.code == KeyCode::Down || key.code == KeyCode::Char('j')
            ==> r == Action::LayoutMove(0, 1),
        key.code == KeyCode::Left || key.code == KeyCode::Char('h')
            ==> r == Action::LayoutMove(-1i8, 0),
        key.code == KeyCode::Right || key.code == KeyCode::Char('l')
            ==> r == Action::LayoutMove(1, 0),
        r is LayoutMove ==> *final(app) == *old(app),
{
}

/// In the depth chart, left and right move to the key before and behind, up and down to the
/// row above and below, in the same column or at the end of a shorter row. The rows hold 15,
/// 15, 13, 13 and 10 keys.
pub proof fn arrows_move_in_the_depth_chart(
    app: &mut App,
    key: KeyPress,
    visible: usize,
    pages_read: Option<u64>,
    r: Action,
)
    requires
        call_ensures(App::handle_key, (app, key, visible, pages_read), r),
        old(app).wf(),
        no_popup(*old(app)),
        old(app).tab == 1,
        old(app).depth_view_mode == DepthViewMode::BarChart,
        old(app).depth_cursor < 66,
        old(app).depth_keys >= 66,
        key.code == KeyCode::Up || key.code == KeyCode::Char('k') || key.code == KeyCode::Down
            || key.code == KeyCode::Char('j') || key.code == KeyCode::Left
            || key.code == KeyCode::Char('h') || key.code == KeyCode::Right
            || key.code == KeyCode::Char('l'),
    ensures
        r == Action::Nothing,
        ({
            let was = old(app).depth_cursor as int;
            let is = final(app).depth_cursor as int;
            &&& key.code == KeyCode::Left || key.code == KeyCode::Char('h') ==> is == was - 1
                || (was == 0 && is == 0)
            &&& key.code == KeyCode::Right || key.code == KeyCode::Char('l') ==> is == was + 1
                || (was == 65 && is == 65)
            &&& key.code == KeyCode::Up || key.code == KeyCode::Char('k') ==> (15 <= was < 30
                ==> is == was - 15) && (30 <= was < 43 ==> is == was - 15) && (43 <= was < 56
                ==> is == was - 13) && (56 <= was ==> is == was - 13) && (was < 15 ==> is == was)
            &&& key.code == KeyCode::Down || key.code == KeyCode::Char('j') ==> (was < 15
                ==> is == was + 15) && (15 <= was < 28 ==> is == was + 15) && (28 <= was < 30
                ==> is == 42) && (30 <= was < 43 ==> is == was + 13) && (43 <= was < 53
                ==> is == was + 13) && (53 <= was < 56 ==> is == 65) && (56 <= was ==> is == was)
        }),
        *final(app) == (App { depth_cursor: final(app).depth_cursor, ..*old(app) }),
{
}

/// In the depth tab `v` changes the view, `x` clears what was recorded, and in the chart the
/// space bar selects the key under the cursor.
pub proof fn keys_of_the_depth_tab(
    app: &mut App,
    key: KeyPress,
    visible: usize,
    pages_read: Option<u64>,
    r: Action,
)
    requires
        call_ensures(App::handle_key, (app, key, visible, pages_read), r),
        old(app).wf(),
        no_popup(*old(app)),
        alt_free(key),
        old(app).tab == 1,
    ensures
        r == Action::ToggleDepthView <==> key.code == KeyCode::Char('v'),
        r == Action::ClearDepthData <==> key.code == KeyCode::Char('x'),
        key.code == KeyCode::Char(' ') && old(app).depth_view_mode == DepthViewMode::BarChart
            <==> r is ToggleKeySelection,
        r is ToggleKeySelection ==> r->ToggleKeySelection_0 == old(app).depth_cursor,
        r is ToggleDepthView || r is ClearDepthData || r is ToggleKeySelection
            ==> *final(app) == *old(app),
{
}

/// In the key mapping `f` opens the filter at its first field, `v` changes between list and
/// layout, `s` sorts, `g` edits all keys, and Enter and `e` edit the row that is selected, if
/// there is one.
pub proof fn keys_of_the_mapping_tab(
    app: &mut App,
    key: KeyPress,
    visible: usize,
    pages_read: Option<u64>,
    r: Action,
)
    requires
        call_ensures(App::handle_key, (app, key, visible, pages_read), r),
        old(app).wf(),
        no_popup(*old(app)),
        alt_free(key),
        old(app).tab == 2,
    ensures
        key.code == KeyCode::Char('f') ==> r == Action::Nothing
            && *final(app) == (App { key_mapping: KeyMappingTab { filter_open: true, filter_field:
            0, ..old(app).key_mapping }, ..*old(app) }),
        (final(app).key_mapping.view != old(app).key_mapping.view) == (key.code ==
            KeyCode::Char('v')),
        key.code == KeyCode::Char('v') ==> r == Action::Nothing
            && *final(app) == (App { key_mapping: KeyMappingTab { view: final(app).key_mapping.view,
            ..old(app).key_mapping }, ..*old(app) }),
        r == Action::CycleSort <==> key.code == KeyCode::Char('s'),
        r == Action::EditAllKeys <==> key.code == KeyCode::Char('g'),
        (key.code == KeyCode::Enter || key.code == KeyCode::Char('e'))
            && old(app).key_mapping.selected < visible <==> r is EditKey,
        r is EditKey ==> r->EditKey_0 == old(app).key_mapping.selected,
        r is EditKey || r is CycleSort || r is EditAllKeys ==> *final(app) == *old(app),
{
}

/// In the device tab, Enter looks for devices on the device entry, checks the firmware on its
/// entry, and starts the hex input on a color, for the LEDs that the entry is about.
pub proof fn enter_opens_the_selected_entry(
    app: &mut App,
    key: KeyPress,
    visible: usize,
    pages_read: Option<u64>,
    r: Action,
)
    requires
        call_ensures(App::handle_key, (app, key, visible, pages_read), r),
        old(app).wf(),
        no_popup(*old(app)),
        old(app).tab == 0,
        old(app).selected < old(app).info_tags@.len(),
        key.code == KeyCode::Enter,
    ensures
        ({
            let tag = old(app).info_tags@[old(app).selected as int];
            &&& r == Action::ScanDevices <==> tag == InfoTag::Device
            &&& final(app).picker.open <==> tag == InfoTag::Device
            &&& r == Action::CheckFirmware <==> tag == InfoTag::FirmwareCheck
            &&& r == Action::StartHexInput(HexColorTarget::MainLed) <==> tag == InfoTag::LedColorHex
            &&& r == Action::StartHexInput(HexColorTarget::SideLed)
                <==> tag == InfoTag::SideColorHex
        }),
        r is ScanDevices || r is CheckFirmware || r is StartHexInput || r is Nothing,
        *final(app) == (App { picker: DevicePicker { open: final(app).picker.open, ..old(app).picker
            }, ..*old(app) }),
{
}

/// In the device tab, the number sign starts the hex input on every entry of a color, and a
/// digit does so on the hex entry and becomes its first digit, for the LEDs that the entry
/// is about.
pub proof fn hex_input_starts_on_colors(
    app: &mut App,
    key: KeyPress,
    visible: usize,
    pages_read: Option<u64>,
    r: Action,
)
    requires
        call_ensures(App::handle_key, (app, key, visible, pages_read), r),
        old(app).wf(),
        no_popup(*old(app)),
        alt_free(key),
        old(app).tab == 0,
        old(app).selected < old(app).info_tags@.len(),
        key.code is Char,
        ({
            let c = key.code->Char_0;
            c == '#' || '0' <= c <= '9' || 'a' <= c <= 'f' || 'A' <= c <= 'F'
        }),
    ensures
        ({
            let c = key.code->Char_0;
            let tag = old(app).info_tags@[old(app).selected as int];
            let main = tag == InfoTag::LedRed || tag == InfoTag::LedGreen || tag == InfoTag::LedBlue
                || tag == InfoTag::LedColorHex;
            let side = tag == InfoTag::SideRed || tag == InfoTag::SideGreen
                || tag == InfoTag::SideBlue || tag == InfoTag::SideColorHex;
            &&& c == '#' ==> (r == Action::StartHexInput(HexColorTarget::MainLed) <==> main)
                && (r == Action::StartHexInput(HexColorTarget::SideLed) <==> side)
            &&& c != '#' && tag == InfoTag::LedColorHex ==> r is StartHexInputWith
                && r->StartHexInputWith_0 == HexColorTarget::MainLed
            &&& c != '#' && tag == InfoTag::SideColorHex ==> r is StartHexInputWith
                && r->StartHexInputWith_0 == HexColorTarget::SideLed
            &&& r is StartHexInputWith ==> c != '#' && (r->StartHexInputWith_1 == c
                && ('0' <= c <= '9' || 'A' <= c <= 'F')
                || r->StartHexInputWith_1 as u32 + 32 == c as u32 && 'a' <= c <= 'f')
            &&& !main && !side ==> r == Action::Nothing
        }),
        *final(app) == *old(app),
{
}

/// With Alt, a digit brings the tab of that number to the front, at its top, if there is
/// one: there are three, and a fourth for notifications if the program has it.
pub proof fn alt_digits_bring_tabs_to_the_front(
    app: &mut App,
    key: KeyPress,
    visible: usize,
    pages_read: Option<u64>,
    r: Action,
)
    requires
        call_ensures(App::handle_key, (app, key, visible, pages_read), r),
        old(app).wf(),
        no_popup(*old(app)),
        key.alt,
        key.code is Char,
        '1' <= key.code->Char_0 <= '5',
    ensures
        key.code == KeyCode::Char('1') ==> final(app).tab == 0 && r is EnterTab,
        key.code == KeyCode::Char('2') ==> final(app).tab == 1 && r is EnterTab,
        key.code == KeyCode::Char('3') ==> final(app).tab == 2 && r is EnterTab,
        key.code == KeyCode::Char('4') && old(app).notify.enabled ==> final(app).tab == 3
            && r is EnterTab,
        (key.code == KeyCode::Char('4') && !old(app).notify.enabled)
            || key.code == KeyCode::Char('5') ==> r == Action::Nothing && *final(app) == *old(app),
        r is EnterTab ==> final(app).selected == 0 && final(app).trigger_scroll == 0,
{
}

/// In the notification tab, the keys that move, page or confirm are handed on as they are.
pub proof fn the_notification_tab_gets_its_keys(
    app: &mut App,
    key: KeyPress,
    visible: usize,
    pages_read: Option<u64>,
    r: Action,
)
    requires
        call_ensures(App::handle_key, (app, key, visible, pages_read), r),
        old(app).wf(),
        no_popup(*old(app)),
        alt_free(key),
        old(app).tab == 3,
        old(app).notify.enabled,
        key.code == KeyCode::Up || key.code == KeyCode::Down || key.code == KeyCode::Left
            || key.code == KeyCode::Right || key.code == KeyCode::Enter || key.code == KeyCode::Tab
            || key.code == KeyCode::BackTab || key.code == KeyCode::PageUp
            || key.code == KeyCode::PageDown || key.code == KeyCode::Char('k')
            || key.code == KeyCode::Char('j') || key.code == KeyCode::Char('h')
            || key.code == KeyCode::Char('l') || key.code == KeyCode::Char(' ')
            || key.code == KeyCode::Char('x') || key.code == KeyCode::Char('s')
            || key.code == KeyCode::Char('e') || key.code == KeyCode::Char('v')
            || key.code == KeyCode::Char('g'),
    ensures
        r == Action::Notify(key.code),
        *final(app) == *old(app),
{
}

} // verus!
