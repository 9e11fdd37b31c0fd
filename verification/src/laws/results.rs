//! What results of background work, connections and clicks change in the interface.

use crate::connect::ConnectedDevice;
use crate::keymap::{KeyRow, LoadStage};
use crate::led::{LedParams, DAZZLE_ON};
use crate::magnetism::TriggerSettings;
use crate::patches::AnimStatus;
use crate::protocol::Profile;
use crate::settings::{BatteryInfo, FirmwareVersion, KeyboardOptions, Precision, SleepTimeSettings};
use crate::text::dec;
use crate::tui_flow::{
    as_ints, battery_is_due, coalesce, is_latest, is_other, latest_of, places_where, tick_ms,
    RefreshLoads, TabLoads,
};
use crate::tui_input::{
    output_target, title_under, toggling_is_about_one_key, wheel, Action, Area, OutputTarget,
};
use crate::tui_state::{
    App, AsyncResult, BatterySource, DevicePicker, EditableOptions, FirmwareCheckResult,
    FirmwareSettings, GenerationalResult, KeyMappingTab, LedInfo, LoadState, LoadingStates,
    Notification, NotifyTab, PatchInfoData, PickerItem,
};
use vstd::prelude::*;

verus! {

/// The places at which something holds ascend, and are all there are.
proof fn lemma_places(f: spec_fn(int) -> bool, n: nat)
    ensures
        ({
            let p = places_where(f, n);
            &&& forall|a: int| 0 <= a < p.len() ==> 0 <= #[trigger] p[a] < n && f(p[a])
            &&& forall|a: int, b: int| 0 <= a < b < p.len() ==> #[trigger] p[a] < #[trigger] p[b]
            &&& forall|i: int| 0 <= i < n && #[trigger] f(i) ==> p.contains(i)
        }),
    decreases n,
{
    if n > 0 {
        let m = (n - 1) as nat;
        lemma_places(f, m);
        let p = places_where(f, n);
        let q = places_where(f, m);
        assert forall|i: int| 0 <= i < n && #[trigger] f(i) implies p.contains(i) by {
            if i < m {
                let a = choose|a: int| 0 <= a < q.len() && q[a] == i;
                assert(p[a] == i);
            } else {
                assert(p[p.len() - 1] == i);
            }
        }
    }
}

/// A depth is the latest of its key if that key does not come again.
proof fn lemma_latest(k: Seq<Option<u8>>, i: int)
    requires
        0 <= i < k.len(),
        k[i] is Some,
    ensures
        is_latest(k, i) == !k.skip(i + 1).contains(k[i]),
{
    let rest = k.skip(i + 1);
    if rest.contains(k[i]) {
        let a = choose|a: int| 0 <= a < rest.len() && rest[a] == k[i];
        assert(k[i + 1 + a] == k[i]);
    } else {
        assert forall|j: int| i < j < k.len() implies #[trigger] k[j] != k[i] by {
            assert(rest[j - i - 1] == k[j]);
        }
    }
}

/// The device id and the version that were read are shown, and count as loaded. Nothing
/// else changes.
pub proof fn version_is_shown(app: &mut App, id: u32, v: FirmwareVersion)
    requires
        call_ensures(App::process_async_result, (app, AsyncResult::DeviceIdAndVersion(Ok((id, v)))),
            ()),
    ensures
        final(app).info.device_id == id,
        final(app).info.version == v.raw,
        *final(app) == (App { info: FirmwareSettings { device_id: final(app).info.device_id,
            version: final(app).info.version, ..old(app).info }, loading: LoadingStates {
            usb_version: LoadState::Loaded, ..old(app).loading }, ..*old(app) }),
{
}

/// A profile that was read is shown, and counts as loaded. Nothing else changes.
pub proof fn profile_is_shown(app: &mut App, p: Profile)
    requires
        call_ensures(App::process_async_result, (app, AsyncResult::Profile(Ok(p))), ()),
    ensures
        final(app).info.profile == p,
        *final(app) == (App { info: FirmwareSettings { profile: final(app).info.profile,
            ..old(app).info }, loading: LoadingStates { profile: LoadState::Loaded,
            ..old(app).loading }, ..*old(app) }),
{
}

/// A debounce time that was read is shown, and counts as loaded. Nothing else changes.
pub proof fn debounce_is_shown(app: &mut App, d: u8)
    requires
        call_ensures(App::process_async_result, (app, AsyncResult::Debounce(Ok(d))), ()),
    ensures
        final(app).info.debounce == d,
        *final(app) == (App { info: FirmwareSettings { debounce: final(app).info.debounce,
            ..old(app).info }, loading: LoadingStates { debounce: LoadState::Loaded,
            ..old(app).loading }, ..*old(app) }),
{
}

/// A polling rate that was read is shown, and counts as loaded. Nothing else changes.
pub proof fn polling_rate_is_shown(app: &mut App, rate: u16)
    requires
        call_ensures(App::process_async_result, (app, AsyncResult::PollingRate(Ok(rate))), ()),
    ensures
        final(app).info.polling_rate == rate,
        *final(app) == (App { info: FirmwareSettings { polling_rate: final(app).info.polling_rate,
            ..old(app).info }, loading: LoadingStates { polling_rate: LoadState::Loaded,
            ..old(app).loading }, ..*old(app) }),
{
}

/// What was read of the main LEDs is shown where it belongs, and counts as loaded. Nothing
/// else changes.
pub proof fn main_leds_are_shown(app: &mut App, p: LedParams)
    requires
        call_ensures(App::process_async_result, (app, AsyncResult::LedParams(Ok(p))), ()),
    ensures
        final(app).info.led.brightness == p.brightness,
        final(app).info.led.speed == p.speed,
        final(app).info.led.r == p.color.r,
        final(app).info.led.g == p.color.g,
        final(app).info.led.b == p.color.b,
        final(app).info.led.mode == p.mode.number(),
        final(app).info.led.dazzle == (p.direction == DAZZLE_ON),
        *final(app) == (App { info: FirmwareSettings { led: final(app).info.led, ..old(app).info },
            loading: LoadingStates { led_params: LoadState::Loaded, ..old(app).loading },
            ..*old(app) }),
{
}

/// What was read of the side LEDs is shown where it belongs, and counts as loaded. Nothing
/// else changes.
pub proof fn side_leds_are_shown(app: &mut App, p: LedParams)
    requires
        call_ensures(App::process_async_result, (app, AsyncResult::SideLedParams(Ok(p))), ()),
    ensures
        final(app).info.side.brightness == p.brightness,
        final(app).info.side.speed == p.speed,
        final(app).info.side.r == p.color.r,
        final(app).info.side.g == p.color.g,
        final(app).info.side.b == p.color.b,
        final(app).info.side.mode == p.mode.number(),
        final(app).info.side.dazzle == (p.direction == DAZZLE_ON),
        *final(app) == (App { info: FirmwareSettings { side: final(app).info.side, ..old(app).info
            }, loading: LoadingStates { side_led_params: LoadState::Loaded, ..old(app).loading },
            ..*old(app) }),
{
}

/// Of the options that were read, the device tab shows the Fn layer and the swap of the
/// arrow keys. Nothing else changes.
pub proof fn options_show_in_the_device_tab(app: &mut App, o: KeyboardOptions)
    requires
        call_ensures(App::process_async_result, (app, AsyncResult::KbOptions(Ok(o))), ()),
    ensures
        final(app).info.fn_layer == o.fn_layer,
        final(app).info.wasd_swap == o.wasd_swap,
        *final(app) == (App { info: FirmwareSettings { fn_layer: final(app).info.fn_layer,
            wasd_swap: final(app).info.wasd_swap, ..old(app).info }, loading: LoadingStates {
            kb_options_info: LoadState::Loaded, ..old(app).loading }, ..*old(app) }),
{
}

/// A precision that was read is used from then on. Nothing else changes.
pub proof fn precision_is_used(app: &mut App, p: Precision)
    requires
        call_ensures(App::process_async_result, (app, AsyncResult::Precision(Ok(p))), ()),
    ensures
        final(app).precision == p,
        *final(app) == (App { precision: final(app).precision, loading: LoadingStates { precision:
            LoadState::Loaded, ..old(app).loading }, ..*old(app) }),
{
}

/// Sleep times that were read are kept, and are those of the options that can be edited, if
/// any are. Of the options, nothing else changes.
pub proof fn sleep_times_are_shown(app: &mut App, s: SleepTimeSettings)
    requires
        call_ensures(App::process_async_result, (app, AsyncResult::SleepTime(Ok(s))), ()),
    ensures
        final(app).sleep_settings == Some(s),
        final(app).info.sleep_seconds == s.idle_bt,
        (final(app).options is Some) == (old(app).options is Some),
        old(app).options is Some ==> final(app).options == Some(EditableOptions { idle_bt:
            s.idle_bt, idle_24g: s.idle_24g, deep_bt: s.deep_bt, deep_24g: s.deep_24g,
            ..old(app).options->0 }),
        *final(app) == (App { info: FirmwareSettings { sleep_seconds: final(app).info.sleep_seconds,
            ..old(app).info }, sleep_settings: final(app).sleep_settings, options:
            final(app).options, loading: LoadingStates { sleep_time: LoadState::Loaded,
            ..old(app).loading }, ..*old(app) }),
{
}

/// Options that were read can be edited, each under its own name, with the sleep times that
/// are known, or else the standard ones.
pub proof fn options_can_be_edited(app: &mut App, o: KeyboardOptions)
    requires
        call_ensures(App::process_async_result, (app, AsyncResult::Options(Ok(o))), ()),
    ensures
        final(app).options is Some,
        ({
            let e = final(app).options->0;
            &&& e.os_mode == o.os_mode
            &&& e.fn_layer == o.fn_layer
            &&& e.anti_mistouch == o.anti_mistouch
            &&& e.rt_stability == o.rt_stability
            &&& e.wasd_swap == o.wasd_swap
            &&& old(app).sleep_settings matches Some(s) ==> e.idle_bt == s.idle_bt
                && e.idle_24g == s.idle_24g && e.deep_bt == s.deep_bt && e.deep_24g == s.deep_24g
        }),
        old(app).sleep_settings is None ==> final(app).options->0.idle_bt == 120
            && final(app).options->0.idle_24g == 120 && final(app).options->0.deep_bt == 1680
            && final(app).options->0.deep_24g == 1680,
        final(app).status_msg@ == "Keyboard options loaded"@,
        *final(app) == (App { options: final(app).options, status_msg: final(app).status_msg,
            loading: LoadingStates { options: LoadState::Loaded, ..old(app).loading }, ..*old(app)
            }),
{
}

/// A patch that was found in the keyboard is shown as the keyboard's, and counts as loaded.
pub proof fn patch_is_shown(app: &mut App, data: PatchInfoData)
    requires
        call_ensures(App::process_async_result, (app, AsyncResult::PatchInfo(Ok(data))), ()),
    ensures
        final(app).patch_info == Some(data),
        *final(app) == (App { patch_info: final(app).patch_info, loading: LoadingStates {
            patch_info: LoadState::Loaded, ..old(app).loading }, ..*old(app) }),
{
}

/// A patch that was found in the receiver is shown as the receiver's, and counts as loaded.
pub proof fn dongle_patch_is_shown(app: &mut App, data: PatchInfoData)
    requires
        call_ensures(App::process_async_result, (app, AsyncResult::DonglePatchInfo(Ok(data))), ()),
    ensures
        final(app).dongle_patch_info == Some(data),
        *final(app) == (App { dongle_patch_info: final(app).dongle_patch_info, loading:
            LoadingStates { dongle_patch_info: LoadState::Loaded, ..old(app).loading }, ..*old(app)
            }),
{
}

/// That a receiver does not answer is no failure: not every keyboard has one.
pub proof fn a_receiver_need_not_answer(app: &mut App, e: String)
    requires
        call_ensures(App::process_async_result, (app, AsyncResult::DonglePatchInfo(Err(e))), ()),
    ensures
        *final(app) == (App { loading: LoadingStates { dongle_patch_info: LoadState::Loaded,
            ..old(app).loading }, ..*old(app) }),
{
}

/// What a firmware check found is kept and told.
pub proof fn firmware_check_is_told(app: &mut App, found: FirmwareCheckResult)
    requires
        call_ensures(App::process_async_result, (app, AsyncResult::FirmwareCheck(found)), ()),
    ensures
        final(app).firmware_check == Some(found),
        final(app).status_msg@ == found.message@,
        *final(app) == (App { firmware_check: final(app).firmware_check, status_msg:
            final(app).status_msg, loading: LoadingStates { firmware_check: LoadState::Loaded,
            ..old(app).loading }, ..*old(app) }),
{
}

/// Triggers that were read are kept, count as loaded and are told of.
pub proof fn triggers_are_kept(app: &mut App, t: TriggerSettings)
    requires
        call_ensures(App::process_async_result, (app, AsyncResult::Triggers(Ok(t))), ()),
    ensures
        final(app).triggers == Some(t),
        final(app).status_msg@ == "Trigger settings loaded"@,
        *final(app) == (App { triggers: final(app).triggers, status_msg: final(app).status_msg,
            loading: LoadingStates { triggers: LoadState::Loaded, ..old(app).loading }, ..*old(app)
            }),
{
}

/// Triggers that could not be read are told of, and those from before stay.
pub proof fn failed_triggers_are_told(app: &mut App, e: String)
    requires
        call_ensures(App::process_async_result, (app, AsyncResult::Triggers(Err(e))), ()),
    ensures
        final(app).status_msg@ == "Failed to load trigger settings"@,
        *final(app) == (App { status_msg: final(app).status_msg, loading: LoadingStates { triggers:
            LoadState::Error, ..old(app).loading }, ..*old(app) }),
{
}

/// Options that could not be read are told of, and those from before stay.
pub proof fn failed_options_are_told(app: &mut App, e: String)
    requires
        call_ensures(App::process_async_result, (app, AsyncResult::Options(Err(e))), ()),
    ensures
        final(app).status_msg@ == "Failed to load options"@,
        *final(app) == (App { status_msg: final(app).status_msg, loading: LoadingStates { options:
            LoadState::Error, ..old(app).loading }, ..*old(app) }),
{
}

/// Rows that were loaded replace those from before, the load is over, and the selection
/// stays where it is, or moves to the last row if there are fewer.
pub proof fn key_rows_are_shown(app: &mut App, rows: Vec<KeyRow>)
    requires
        call_ensures(App::process_async_result, (app, AsyncResult::KeyRows(Ok(rows))), ()),
    ensures
        final(app).key_mapping.rows == rows,
        final(app).key_mapping.progress is None,
        old(app).key_mapping.selected < rows@.len()
            ==> final(app).key_mapping.selected == old(app).key_mapping.selected,
        old(app).key_mapping.selected >= rows@.len() && rows@.len() > 0
            ==> final(app).key_mapping.selected == rows@.len() - 1,
        final(app).status_msg@ == dec(rows@.len()) + " keys loaded"@,
        *final(app) == (App { key_mapping: KeyMappingTab { rows: final(app).key_mapping.rows,
            progress: final(app).key_mapping.progress, selected: final(app).key_mapping.selected,
            ..old(app).key_mapping }, status_msg: final(app).status_msg, loading: LoadingStates {
            key_mapping: LoadState::Loaded, ..old(app).loading }, ..*old(app) }),
{
}

/// Rows that could not be loaded are told of with the reason, the load is over, and the rows
/// from before stay.
pub proof fn failed_rows_are_told(app: &mut App, e: String)
    requires
        call_ensures(App::process_async_result, (app, AsyncResult::KeyRows(Err(e))), ()),
    ensures
        final(app).key_mapping.progress is None,
        final(app).status_msg@ == "Failed to load key mapping: "@ + e@,
        *final(app) == (App { key_mapping: KeyMappingTab { progress:
            final(app).key_mapping.progress, ..old(app).key_mapping }, status_msg:
            final(app).status_msg, loading: LoadingStates { key_mapping: LoadState::Error,
            ..old(app).loading }, ..*old(app) }),
{
}

/// While rows are loaded, the stage that was reached last is shown.
pub proof fn a_stage_is_shown(app: &mut App, stage: LoadStage)
    requires
        call_ensures(App::process_async_result, (app, AsyncResult::KeyRowsStage(stage)), ()),
    ensures
        final(app).key_mapping.progress == Some(stage),
        *final(app) == (App { key_mapping: KeyMappingTab { progress:
            final(app).key_mapping.progress, ..old(app).key_mapping }, ..*old(app) }),
{
}

/// A setting that was written is told of by its name, and changes nothing that is shown.
pub proof fn a_setting_that_was_written_is_told(app: &mut App, field: String)
    requires
        call_ensures(App::process_async_result, (app, AsyncResult::SetComplete(field, Ok(()))), ()),
    ensures
        final(app).status_msg@ == field@ + " updated"@,
        *final(app) == (App { status_msg: final(app).status_msg, ..*old(app) }),
{
}

/// A setting that could not be written is told of by its name with the reason.
pub proof fn a_setting_that_failed_is_told(app: &mut App, field: String, e: String)
    requires
        call_ensures(App::process_async_result, (app, AsyncResult::SetComplete(field, Err(e))), ()),
    ensures
        final(app).status_msg@ == "Failed to set "@ + field@ + ": "@ + e@,
        *final(app) == (App { status_msg: final(app).status_msg, ..*old(app) }),
{
}

/// A battery state that was read replaces the one from before.
pub proof fn the_battery_is_kept(app: &mut App, b: BatteryInfo)
    requires
        call_ensures(App::process_async_result, (app, AsyncResult::Battery(Ok(b))), ()),
    ensures
        final(app).battery == Some(b),
        *final(app) == (App { battery: final(app).battery, ..*old(app) }),
{
}

/// A battery that could not be read is told of with the reason; the state from before stays.
pub proof fn a_battery_failure_is_told(app: &mut App, e: String)
    requires
        call_ensures(App::process_async_result, (app, AsyncResult::Battery(Err(e))), ()),
    ensures
        final(app).status_msg@ == "Battery read failed: "@ + e@,
        *final(app) == (App { status_msg: final(app).status_msg, ..*old(app) }),
{
}

/// Effects that were read are listed with the first one selected, and their number and place
/// are told.
pub proof fn effects_are_listed(app: &mut App, names: Vec<String>)
    requires
        call_ensures(App::process_async_result, (app, AsyncResult::NotifyEffectsLoaded(Ok(names))),
            ()),
    ensures
        final(app).notify.effect_names == names,
        final(app).notify.effects_loaded,
        final(app).notify.selected_effect == 0,
        final(app).status_msg@ == "Loaded "@ + dec(names@.len()) + " effects from "@ +
            old(app).notify.effects_path@,
        *final(app) == (App { notify: NotifyTab { effect_names: final(app).notify.effect_names,
            effects_loaded: final(app).notify.effects_loaded, selected_effect:
            final(app).notify.selected_effect, ..old(app).notify }, status_msg:
            final(app).status_msg, ..*old(app) }),
{
}

/// Effects that could not be read are told of with the reason.
pub proof fn failed_effects_are_told(app: &mut App, e: String)
    requires
        call_ensures(App::process_async_result, (app, AsyncResult::NotifyEffectsLoaded(Err(e))),
            ()),
    ensures
        final(app).status_msg@ == "Failed to load effects: "@ + e@,
        *final(app) == (App { status_msg: final(app).status_msg, ..*old(app) }),
{
}

/// A daemon that stopped no longer counts as running.
pub proof fn a_daemon_that_stopped_is_told(app: &mut App, )
    requires
        call_ensures(App::process_async_result, (app, AsyncResult::NotifyDaemonStopped(Ok(()))),
            ()),
    ensures
        !final(app).notify.daemon_running,
        final(app).status_msg@ == "Notify daemon stopped"@,
        *final(app) == (App { notify: NotifyTab { daemon_running: final(app).notify.daemon_running,
            ..old(app).notify }, status_msg: final(app).status_msg, ..*old(app) }),
{
}

/// A daemon that failed no longer counts as running, and the reason is kept and told.
pub proof fn a_daemon_that_failed_is_told(app: &mut App, e: String)
    requires
        call_ensures(App::process_async_result, (app, AsyncResult::NotifyDaemonStopped(Err(e))),
            ()),
    ensures
        !final(app).notify.daemon_running,
        final(app).notify.daemon_error == Some(e),
        final(app).status_msg@ == "Daemon error: "@ + e@,
        *final(app) == (App { notify: NotifyTab { daemon_running: final(app).notify.daemon_running,
            daemon_error: final(app).notify.daemon_error, ..old(app).notify }, status_msg:
            final(app).status_msg, ..*old(app) }),
{
}

/// The notifications that are listed are those of the latest list.
pub proof fn notifications_are_listed(app: &mut App, list: Vec<Notification>)
    requires
        call_ensures(App::process_async_result, (app, AsyncResult::NotifyList(list)), ()),
    ensures
        final(app).notify.notifications == list,
        *final(app) == (App { notify: NotifyTab { notifications: final(app).notify.notifications,
            ..old(app).notify }, ..*old(app) }),
{
}

/// The state of the animations that is shown is the one read last.
pub proof fn animations_are_shown(app: &mut App, s: AnimStatus)
    requires
        call_ensures(App::process_async_result, (app, AsyncResult::AnimStatus(Ok(s))), ()),
    ensures
        final(app).anim_snapshot == Some(s),
        *final(app) == (App { anim_snapshot: final(app).anim_snapshot, ..*old(app) }),
{
}

/// If the animations cannot be read, none are shown.
pub proof fn lost_animations_are_not_shown(app: &mut App, e: String)
    requires
        call_ensures(App::process_async_result, (app, AsyncResult::AnimStatus(Err(e))), ()),
    ensures
        final(app).anim_snapshot is None,
        *final(app) == (App { anim_snapshot: final(app).anim_snapshot, ..*old(app) }),
{
}

/// A version that could not be read is marked so, and what was shown stays.
pub proof fn version_failure_shows(app: &mut App, e: String)
    requires
        call_ensures(App::process_async_result, (app, AsyncResult::DeviceIdAndVersion(Err(e))), ()),
    ensures
        *final(app) == (App { loading: LoadingStates { usb_version: LoadState::Error,
            ..old(app).loading }, ..*old(app) }),
{
}

/// A profile that could not be read is marked so, and what was shown stays.
pub proof fn profile_failure_shows(app: &mut App, e: String)
    requires
        call_ensures(App::process_async_result, (app, AsyncResult::Profile(Err(e))), ()),
    ensures
        *final(app) == (App { loading: LoadingStates { profile: LoadState::Error, ..old(app).loading
            }, ..*old(app) }),
{
}

/// A debounce time that could not be read is marked so, and what was shown stays.
pub proof fn debounce_failure_shows(app: &mut App, e: String)
    requires
        call_ensures(App::process_async_result, (app, AsyncResult::Debounce(Err(e))), ()),
    ensures
        *final(app) == (App { loading: LoadingStates { debounce: LoadState::Error,
            ..old(app).loading }, ..*old(app) }),
{
}

/// A polling rate that could not be read is marked so, and what was shown stays.
pub proof fn polling_rate_failure_shows(app: &mut App, e: String)
    requires
        call_ensures(App::process_async_result, (app, AsyncResult::PollingRate(Err(e))), ()),
    ensures
        *final(app) == (App { loading: LoadingStates { polling_rate: LoadState::Error,
            ..old(app).loading }, ..*old(app) }),
{
}

/// A state of the main LEDs that could not be read is marked so, and what was shown stays.
pub proof fn main_led_failure_shows(app: &mut App, e: String)
    requires
        call_ensures(App::process_async_result, (app, AsyncResult::LedParams(Err(e))), ()),
    ensures
        *final(app) == (App { loading: LoadingStates { led_params: LoadState::Error,
            ..old(app).loading }, ..*old(app) }),
{
}

/// A state of the side LEDs that could not be read is marked so, and what was shown stays.
pub proof fn side_led_failure_shows(app: &mut App, e: String)
    requires
        call_ensures(App::process_async_result, (app, AsyncResult::SideLedParams(Err(e))), ()),
    ensures
        *final(app) == (App { loading: LoadingStates { side_led_params: LoadState::Error,
            ..old(app).loading }, ..*old(app) }),
{
}

/// An option that could not be read is marked so, and what was shown stays.
pub proof fn option_failure_shows(app: &mut App, e: String)
    requires
        call_ensures(App::process_async_result, (app, AsyncResult::KbOptions(Err(e))), ()),
    ensures
        *final(app) == (App { loading: LoadingStates { kb_options_info: LoadState::Error,
            ..old(app).loading }, ..*old(app) }),
{
}

/// A precision that could not be read is marked so, and what was shown stays.
pub proof fn precision_failure_shows(app: &mut App, e: String)
    requires
        call_ensures(App::process_async_result, (app, AsyncResult::Precision(Err(e))), ()),
    ensures
        *final(app) == (App { loading: LoadingStates { precision: LoadState::Error,
            ..old(app).loading }, ..*old(app) }),
{
}

/// A sleep time that could not be read is marked so, and what was shown stays.
pub proof fn sleep_time_failure_shows(app: &mut App, e: String)
    requires
        call_ensures(App::process_async_result, (app, AsyncResult::SleepTime(Err(e))), ()),
    ensures
        *final(app) == (App { loading: LoadingStates { sleep_time: LoadState::Error,
            ..old(app).loading }, ..*old(app) }),
{
}

/// A patch that could not be read is marked so, and what was shown stays.
pub proof fn patch_failure_shows(app: &mut App, e: String)
    requires
        call_ensures(App::process_async_result, (app, AsyncResult::PatchInfo(Err(e))), ()),
    ensures
        *final(app) == (App { loading: LoadingStates { patch_info: LoadState::Error,
            ..old(app).loading }, ..*old(app) }),
{
}

/// A result changes something only if it was produced for the device that is connected.
pub proof fn late_results_change_nothing(app: &mut App, gr: GenerationalResult)
    requires
        call_ensures(App::receive, (app, gr), ()),
    ensures
        gr.generation != old(app).device_generation ==> *final(app) == *old(app),
        gr.generation == old(app).device_generation && gr.result is Debounce
            && gr.result->Debounce_0 is Ok
            ==> final(app).info.debounce == gr.result->Debounce_0->Ok_0,
        gr.generation == old(app).device_generation && gr.result is Battery
            && gr.result->Battery_0 is Ok
            ==> final(app).battery == Some(gr.result->Battery_0->Ok_0),
{
}

/// Every connection gets a number of its own, above those before.
pub proof fn a_connection_starts_a_generation(app: &mut App)
    requires
        call_ensures(App::begin_connection, (app,), ()),
        old(app).device_generation < u64::MAX,
    ensures
        final(app).device_generation == old(app).device_generation + 1,
        *final(app) == (App { device_generation: final(app).device_generation, ..*old(app) }),
{
}

/// An open device counts as connected and its keys can be watched; no key is active or
/// selected. The battery of a wireless one is read through the kernel if the kernel has it.
pub proof fn an_open_device_is_shown(app: &mut App, device: ConnectedDevice, supply: Option<String>)
    requires
        call_ensures(App::attach, (app, device, supply), ()),
    ensures
        final(app).connected,
        final(app).device == device,
        final(app).depth_keys == device.key_count,
        final(app).active_keys@.len() == 0,
        final(app).selected_keys@.len() == 0,
        device.is_wireless && supply is Some
            ==> final(app).battery_source == Some(BatterySource::Kernel(supply->0)),
        device.is_wireless && supply is None
            ==> final(app).battery_source == Some(BatterySource::Vendor),
        !device.is_wireless ==> final(app).battery_source == old(app).battery_source,
        *final(app) == (App { connected: final(app).connected, device: final(app).device,
            depth_keys: final(app).depth_keys, active_keys: final(app).active_keys, selected_keys:
            final(app).selected_keys, battery_source: final(app).battery_source, ..*old(app) }),
{
}

/// After a connection, settings are read unless the keyboard sleeps, and a sleeping wireless
/// keyboard is told of instead of the connection.
pub proof fn settings_are_read_from_a_waking_keyboard(app: &mut App, r: bool)
    requires
        call_ensures(App::announce_connection, (app,), r),
    ensures
        r == !(old(app).battery is Some && old(app).battery->0.idle),
        !old(app).device.is_wireless || r
            ==> final(app).status_msg@ == "Connected to "@ + old(app).device.name@,
        old(app).device.is_wireless && !r
            ==> final(app).status_msg@ ==
            "Keyboard sleeping - press a key to wake before querying"@,
        *final(app) == (App { status_msg: final(app).status_msg, ..*old(app) }),
{
}

/// That no device could be opened is told, and nothing else changes.
pub proof fn a_failed_connection_is_told(app: &mut App, message: String)
    requires
        call_ensures(App::connection_failed, (app, message), ()),
    ensures
        final(app).status_msg == message,
        *final(app) == (App { status_msg: final(app).status_msg, ..*old(app) }),
{
}

/// The devices that a scan found can be picked, with the first one selected.
pub proof fn a_scan_fills_the_picker(app: &mut App, items: Vec<PickerItem>)
    requires
        call_ensures(App::scanned, (app, Ok(items)), ()),
    ensures
        final(app).picker.items == items,
        final(app).picker.selected == 0,
        *final(app) == (App { picker: DevicePicker { items: final(app).picker.items, selected:
            final(app).picker.selected, ..old(app).picker }, ..*old(app) }),
{
}

/// After a scan that failed nothing can be picked, and the reason is told.
pub proof fn a_failed_scan_empties_the_picker(app: &mut App, e: String)
    requires
        call_ensures(App::scanned, (app, Err(e)), ()),
    ensures
        final(app).picker.items@.len() == 0,
        final(app).status_msg@ == "Device scan failed: "@ + e@,
        final(app).picker.open == old(app).picker.open,
{
}

/// The device that is selected is the one that is picked, and the results of the device
/// before are late from then on.
pub proof fn the_selected_device_is_picked(app: &mut App, r: Option<usize>)
    requires
        call_ensures(App::pick, (app,), r),
        old(app).device_generation < u64::MAX,
    ensures
        r is None <==> old(app).picker.items@.len() == 0,
        r is Some ==> r->0 < old(app).picker.items@.len(),
        old(app).picker.selected < old(app).picker.items@.len()
            ==> r == Some(old(app).picker.selected),
        final(app).device_generation > old(app).device_generation,
{
    assert(old(app).picker.items.len() == old(app).picker.items@.len());
}

/// Once a picked device is open the picker is closed, the device is the one that is asked for
/// from then on, nothing counts as loaded, and nothing of the device before is shown in the
/// device tab.
pub proof fn a_picked_device_starts_afresh(app: &mut App, place: usize, device: ConnectedDevice,
    supply: Option<String>)
    requires
        call_ensures(App::attach_picked, (app, place, device, supply), ()),
        place < old(app).picker.items@.len(),
    ensures
        final(app).connected,
        final(app).device == device,
        !final(app).picker.open,
        final(app).device_selector is Some,
        final(app).device_selector->0@ == dec(old(app).picker.items@[place as int].label.index as
            nat),
        final(app).loading.usb_version == LoadState::NotLoaded,
        final(app).loading.profile == LoadState::NotLoaded,
        final(app).loading.debounce == LoadState::NotLoaded,
        final(app).loading.polling_rate == LoadState::NotLoaded,
        final(app).loading.led_params == LoadState::NotLoaded,
        final(app).loading.side_led_params == LoadState::NotLoaded,
        final(app).loading.kb_options_info == LoadState::NotLoaded,
        final(app).loading.precision == LoadState::NotLoaded,
        final(app).loading.sleep_time == LoadState::NotLoaded,
        final(app).loading.patch_info == LoadState::NotLoaded,
        final(app).loading.dongle_patch_info == LoadState::NotLoaded,
        final(app).loading.firmware_check == LoadState::NotLoaded,
        final(app).loading.triggers == LoadState::NotLoaded,
        final(app).loading.options == LoadState::NotLoaded,
        final(app).loading.key_mapping == LoadState::NotLoaded,
        final(app).info.device_id == 0 && final(app).info.version == 0
            && final(app).info.debounce == 0 && final(app).info.polling_rate == 0,
        final(app).triggers is None,
        final(app).patch_info is None,
        final(app).dongle_patch_info is None,
        final(app).firmware_check is None,
        final(app).anim_snapshot is None,
        final(app).active_keys@.len() == 0,
        final(app).selected_keys@.len() == 0,
        final(app).status_msg@ == "Connected to "@ + device.name@,
        final(app).options == old(app).options,
        final(app).sleep_settings == old(app).sleep_settings,
        final(app).key_mapping == old(app).key_mapping,
        final(app).battery == old(app).battery,
        final(app).tab == old(app).tab,
        final(app).precision == old(app).precision,
{
}

/// That a picked device could not be opened is told, and the picker closes.
pub proof fn a_failed_pick_closes_the_picker(app: &mut App, error: &str)
    requires
        call_ensures(App::picked_failed, (app, error), ()),
    ensures
        !final(app).picker.open,
        final(app).status_msg@ == "Failed to open device: "@ + error@,
        *final(app) == (App { picker: DevicePicker { open: final(app).picker.open, ..old(app).picker
            }, status_msg: final(app).status_msg, ..*old(app) }),
{
}

/// A tab that comes to the front is at its top. The key mapping and the triggers are loaded
/// by the third tab if the key mapping never was, the effects by the notification tab.
pub proof fn a_tab_loads_what_it_lacks(app: &mut App, tab: usize, pages_read: Option<u64>, r:
    TabLoads)
    requires
        call_ensures(App::switch_tab, (app, tab, pages_read), r),
    ensures
        final(app).tab == tab,
        final(app).selected == 0,
        final(app).trigger_scroll == 0,
        r.key_mapping <==> tab == 2 && old(app).loading.key_mapping == LoadState::NotLoaded
            && pages_read is Some,
        r.triggers <==> tab == 2 && old(app).loading.key_mapping == LoadState::NotLoaded
            && old(app).loading.triggers == LoadState::NotLoaded,
        r.effects <==> tab == 3 && old(app).notify.enabled && !old(app).notify.effects_loaded,
        r.key_mapping ==> final(app).loading.key_mapping == LoadState::Loading
            && final(app).key_mapping.pages_start == pages_read->0
            && final(app).key_mapping.progress is None,
        !r.key_mapping ==> final(app).loading == old(app).loading
            && final(app).key_mapping == old(app).key_mapping,
        final(app).key_mapping.rows == old(app).key_mapping.rows
            && final(app).key_mapping.selected == old(app).key_mapping.selected,
{
}

/// A refresh reads the device tab and the options, and in the third tab the key mapping and
/// the triggers too. Of a wireless keyboard that sleeps nothing is read.
pub proof fn a_refresh_reads_everything(app: &mut App, pages_read: Option<u64>, r: RefreshLoads)
    requires
        call_ensures(App::refresh, (app, pages_read), r),
    ensures
        ({
            let sleeps = old(app).device.is_wireless && old(app).battery is Some
                && old(app).battery->0.idle;
            &&& r.device_info == !sleeps
            &&& r.options == !sleeps
            &&& r.triggers == (!sleeps && old(app).tab == 2)
            &&& r.key_mapping == (r.triggers && pages_read is Some)
            &&& final(app).status_msg@ == (if sleeps {
                "Keyboard sleeping - press a key to wake before querying"@ } else { "Refreshing..."@
                })
        }),
        r.key_mapping ==> final(app).loading.key_mapping == LoadState::Loading
            && final(app).key_mapping.pages_start == pages_read->0,
        !r.key_mapping ==> *final(app) == (App { status_msg: final(app).status_msg, ..*old(app) }),
{
}

/// Settings are read once when a keyboard wakes up: it slept before, and does no longer.
pub proof fn a_woken_keyboard_is_read(app: &mut App, was_idle: bool, r: bool)
    requires
        call_ensures(App::battery_refreshed, (app, was_idle), r),
    ensures
        ({
            let sleeps = old(app).battery is Some && old(app).battery->0.idle;
            &&& r == (was_idle && !sleeps)
            &&& sleeps ==> final(app).status_msg@ ==
                "Keyboard sleeping - press a key to wake before querying"@
            &&& r ==> final(app).status_msg@ == "Keyboard awake - loading settings..."@
            &&& !sleeps && !was_idle ==> final(app).status_msg == old(app).status_msg
        }),
        *final(app) == (App { status_msg: final(app).status_msg, ..*old(app) }),
{
}

/// When the interface closes, the LED mode from before a reactive mode is set again, once.
pub proof fn leaving_restores_the_mode(app: &mut App, r: Option<u8>)
    requires
        call_ensures(App::leave, (app,), r),
    ensures
        r == old(app).reactive_prev_mode,
        final(app).reactive_prev_mode is None,
        r is Some ==> final(app).info.led.mode == r->0,
        r is None ==> *final(app) == *old(app),
        *final(app) == (App { reactive_prev_mode: final(app).reactive_prev_mode, info:
            FirmwareSettings { led: LedInfo { mode: final(app).info.led.mode, ..old(app).info.led },
            ..old(app).info }, ..*old(app) }),
{
}

/// The battery of a wireless keyboard is due after thirty seconds and from then on; of a wired
/// one it never is.
pub proof fn the_battery_is_read_every_half_minute(wireless: bool, a: u64, b: u64, first: bool,
    second: bool)
    requires
        call_ensures(battery_is_due, (wireless, a), first),
        call_ensures(battery_is_due, (wireless, b), second),
        a <= b,
    ensures
        first ==> second,
        !wireless ==> !second,
        wireless && b >= 30 ==> second,
        a < 30 ==> !first,
{
}

/// Ticks are short only while something moves: a reactive mode in the device tab, or the
/// notification tab.
pub proof fn ticks_are_short_while_something_moves(tab: usize, audio: bool, screen: bool, notify:
    bool, r: u64)
    requires
        call_ensures(tick_ms, (tab, audio, screen, notify), r),
    ensures
        r == 16 || r == 100,
        tab == 0 ==> (r == 16 <==> audio || screen),
        tab == 3 ==> (r == 16 <==> notify),
        tab != 0 && tab != 3 ==> r == 100,
{
}

/// Selecting a key for the time series selects it, doing so again deselects it, and either is
/// told by its name. No other key is affected.
pub proof fn a_selected_key_is_told(app: &mut App, key: usize, label: &str, other: usize)
    requires
        call_ensures(App::toggle_key_selection, (app, key, label), ()),
        old(app).wf(),
        other != key,
    ensures
        final(app).selected_keys@.contains(key) == !old(app).selected_keys@.contains(key),
        final(app).selected_keys@.contains(other) == old(app).selected_keys@.contains(other),
        final(app).selected_keys@.contains(key)
            ==> final(app).status_msg@ == "Selected Key "@ + label@ + " for time series"@,
        !final(app).selected_keys@.contains(key)
            ==> final(app).status_msg@ == "Deselected Key "@ + label@,
        *final(app) == (App { selected_keys: final(app).selected_keys, status_msg:
            final(app).status_msg, ..*old(app) }),
{
    toggling_is_about_one_key(old(app).selected_keys@, key, other);
}

/// The wheel scrolls by one line its own way, over the content only.
pub proof fn the_wheel_scrolls_the_content(up: bool, column: u16, row: u16, content: Area, r:
    Action)
    requires
        call_ensures(wheel, (up, column, row, content), r),
    ensures
        r is ScrollUp || r is ScrollDown || r is Nothing,
        r is ScrollUp ==> up && r->ScrollUp_0 == 1,
        r is ScrollDown ==> !up && r->ScrollDown_0 == 1,
        content.x <= column < content.x + content.width
            && content.y <= row < content.y + content.height && column < u16::MAX && row < u16::MAX
            ==> !(r is Nothing),
        column < content.x || column >= content.x + content.width || row < content.y
            || row >= content.y + content.height ==> r is Nothing,
{
}

/// A click in the content of the device tab, off the tab bar, selects the entry that it falls
/// on: the first one lies below the border.
pub proof fn a_click_selects_the_entry_under_it(app: &mut App, column: u16, row: u16, bar: Area,
    content: Area, pages_read: Option<u64>, r: Action)
    requires
        call_ensures(App::click, (app, column, row, bar, content, pages_read), r),
        row < bar.y || row >= bar.y + bar.height,
    ensures
        r == Action::Nothing,
        *final(app) == (App { selected: final(app).selected, ..*old(app) }),
        old(app).tab == 0 && content.x <= column < content.x + content.width && column < u16::MAX
            && row < u16::MAX && content.y < row < content.y + content.height
            && row - content.y - 1 < old(app).info_tags@.len()
            ==> final(app).selected == row - content.y - 1,
        old(app).tab != 0 || row < content.y || row >= content.y + content.height
            || column < content.x || column >= content.x + content.width
            ==> final(app).selected == old(app).selected,
{
}

/// A click on a title in the tab bar brings that tab to the front. The titles start two
/// columns in and are three columns apart.
pub proof fn a_click_brings_the_tab_under_it(app: &mut App, column: u16, row: u16, bar: Area,
    content: Area, pages_read: Option<u64>, r: Action)
    requires
        call_ensures(App::click, (app, column, row, bar, content, pages_read), r),
        bar.y <= row < bar.y + bar.height,
        bar.x < column < bar.x + bar.width,
        column < u16::MAX,
        row < u16::MAX,
        content.y > row,
    ensures
        ({
            let at = column - bar.x - 1;
            &&& 1 <= at < 12 ==> final(app).tab == 0 && r is EnterTab
            &&& 15 <= at < 24 ==> final(app).tab == 1 && r is EnterTab
            &&& 27 <= at < 38 ==> final(app).tab == 2 && r is EnterTab
            &&& old(app).notify.enabled && 41 <= at < 47 ==> final(app).tab == 3 && r is EnterTab
            &&& at < 1 || 12 <= at < 15 || 24 <= at < 27 || 38 <= at < 41 || at >= 47
                ==> r == Action::Nothing && *final(app) == *old(app)
        }),
        r is EnterTab && final(app).tab != old(app).tab
            ==> final(app).status_msg@ == "Switched to tab "@ + dec(final(app).tab as nat),
        r is EnterTab ==> final(app).selected == 0,
{
    reveal_strlit("Device Info");
    reveal_strlit("Key Depth");
    reveal_strlit("Key Mapping");
    reveal_strlit("Notify");
    reveal_with_fuel(title_under, 5);
}

/// An output that was picked goes to the slot in focus if there is one, else to the key.
pub proof fn an_output_goes_where_the_focus_is(on_slot: bool, slot: usize, r: OutputTarget)
    requires
        call_ensures(output_target, (on_slot, slot), r),
    ensures
        on_slot ==> r == OutputTarget::Slot(slot),
        !on_slot ==> r == OutputTarget::Output,
{
}

/// Of a batch of events all that are no depths are kept, and of the depths of a key the
/// latest alone; both in their order.
pub proof fn only_the_latest_depth_counts(keys: &[Option<u8>], r: (Vec<usize>, Vec<usize>))
    requires
        call_ensures(coalesce, (keys,), r),
    ensures
        forall|a: int, b: int| 0 <= a < b < r.0@.len() ==> #[trigger] r.0@[a] < #[trigger] r.0@[b],
        forall|a: int, b: int| 0 <= a < b < r.1@.len() ==> #[trigger] r.1@[a] < #[trigger] r.1@[b],
        forall|a: int| 0 <= a < r.0@.len() ==> (#[trigger] r.0@[a]) < keys@.len()
            && keys@[r.0@[a] as int] is None,
        forall|a: int| 0 <= a < r.1@.len() ==> (#[trigger] r.1@[a]) < keys@.len()
            && keys@[r.1@[a] as int] is Some
            && !keys@.skip(r.1@[a] + 1).contains(keys@[r.1@[a] as int]),
        forall|i: int| 0 <= i < keys@.len() && (#[trigger] keys@[i]) is None
            ==> as_ints(r.0@).contains(i),
        forall|i: int| 0 <= i < keys@.len() && (#[trigger] keys@[i]) is Some
            && !keys@.skip(i + 1).contains(keys@[i]) ==> as_ints(r.1@).contains(i),
{
    let k = keys@;
    lemma_places(is_other(k), k.len());
    lemma_places(latest_of(k), k.len());
    let (o, d) = (as_ints(r.0@), as_ints(r.1@));
    assert forall|a: int, b: int| 0 <= a < b < r.0@.len() implies #[trigger] r.0@[a]
        < #[trigger] r.0@[b] by {
        assert(o[a] < o[b]);
    }
    assert forall|a: int, b: int| 0 <= a < b < r.1@.len() implies #[trigger] r.1@[a]
        < #[trigger] r.1@[b] by {
        assert(d[a] < d[b]);
    }
    assert forall|a: int| 0 <= a < r.0@.len() implies (#[trigger] r.0@[a]) < k.len()
        && k[r.0@[a] as int] is None by {
        assert(is_other(k)(o[a]));
    }
    assert forall|a: int| 0 <= a < r.1@.len() implies (#[trigger] r.1@[a]) < k.len()
        && k[r.1@[a] as int] is Some && !k.skip(r.1@[a] + 1).contains(k[r.1@[a] as int]) by {
        assert(latest_of(k)(d[a]));
        lemma_latest(k, d[a]);
    }
    assert forall|i: int| 0 <= i < k.len() && (#[trigger] k[i]) is None implies o.contains(i) by {
        assert(is_other(k)(i));
    }
    assert forall|i: int|
        0 <= i < k.len() && (#[trigger] k[i]) is Some && !k.skip(i + 1).contains(
            k[i],
        ) implies d.contains(i) by {
        lemma_latest(k, i);
        assert(latest_of(k)(i));
    }
}

} // verus!
