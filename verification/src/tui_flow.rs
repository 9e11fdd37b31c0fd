//! How the terminal interface connects, loads its tabs and keeps time.

use crate::connect::ConnectedDevice;
use crate::settings::BatteryInfo;
use crate::text::{dec, dec_string};
use crate::tui_state::{
    applied, editable, shows, told, two, App, AsyncResult, BatterySource, DevicePicker, FirmwareSettings,
    GenerationalResult, KeyMappingTab, LoadState, LoadingStates, PickerItem, SLEEPING,
};
use vstd::prelude::*;

verus! {

/// The state and the status line after a result that may be late.
pub open spec fn received(app: App, gr: GenerationalResult) -> (App, Option<Seq<char>>) {
    if gr.generation == app.device_generation {
        (applied(app, gr.result), told(app, gr.result))
    } else {
        (app, None)
    }
}

/// The state once a connection is begun.
pub open spec fn next_generation(app: App) -> App {
    App { device_generation: (app.device_generation + 1) as u64, ..app }
}

/// Where the battery level of a wireless device comes from.
pub open spec fn source_of(supply: Option<String>) -> BatterySource {
    match supply {
        Some(path) => BatterySource::Kernel(path),
        None => BatterySource::Vendor,
    }
}

/// Whether `new` is the state once a device is open. No key is active or selected then.
pub open spec fn attached(app: App, device: ConnectedDevice, supply: Option<String>, new: App) -> bool {
    &&& new.active_keys@ == Seq::<usize>::empty()
    &&& new.selected_keys@ == Seq::<usize>::empty()
    &&& new == with_device(
        App { active_keys: new.active_keys, selected_keys: new.selected_keys, ..app },
        device,
        supply,
    )
}

/// The state with a device, but for the keys that are active or selected.
pub open spec fn with_device(app: App, device: ConnectedDevice, supply: Option<String>) -> App {
    App {
        device,
        depth_keys: device.key_count as usize,
        battery_source: if device.is_wireless {
            Some(source_of(supply))
        } else {
            app.battery_source
        },
        connected: true,
        ..app
    }
}

/// Whether the keyboard is known to sleep.
pub open spec fn asleep(battery: Option<BatteryInfo>) -> bool {
    battery matches Some(b) && b.idle
}

/// Which data a tab needs when it is entered.
#[derive(Debug, Clone, Copy, PartialEq, Eq, Structural)]
pub struct TabLoads {
    pub key_mapping: bool,
    pub triggers: bool,
    pub effects: bool,
}

/// Which data a refresh reads.
#[derive(Debug, Clone, Copy, PartialEq, Eq, Structural)]
pub struct RefreshLoads {
    pub device_info: bool,
    pub options: bool,
    pub key_mapping: bool,
    pub triggers: bool,
}

/// The state once a load of the key mapping is begun. Without a keyboard none is begun;
/// with one, `pages_read` is its page counter.
pub open spec fn mapping_load_begun(app: App, pages_read: Option<u64>) -> App {
    match pages_read {
        Some(pages) => App {
            key_mapping: KeyMappingTab { pages_start: pages, progress: None, ..app.key_mapping },
            loading: LoadingStates { key_mapping: LoadState::Loading, ..app.loading },
            ..app
        },
        None => app,
    }
}

/// The state once a tab has begun to load its data.
pub open spec fn tab_entered(app: App, pages_read: Option<u64>) -> App {
    if app.tab == 2 && app.loading.key_mapping == LoadState::NotLoaded {
        mapping_load_begun(app, pages_read)
    } else {
        app
    }
}

/// What a tab has begun to load.
pub open spec fn tab_loads(app: App, pages_read: Option<u64>) -> TabLoads {
    let mapping = app.tab == 2 && app.loading.key_mapping == LoadState::NotLoaded;
    TabLoads {
        key_mapping: mapping && pages_read is Some,
        triggers: mapping && app.loading.triggers == LoadState::NotLoaded,
        effects: app.notify.enabled && app.tab == 3 && !app.notify.effects_loaded,
    }
}

/// The state with another tab in front, scrolled to its top.
pub open spec fn fronted(app: App, tab: usize) -> App {
    App { tab, selected: 0, trigger_scroll: 0, ..app }
}

impl App {
    /// Whether the keyboard is known to sleep.
    pub fn is_idle(&self) -> (r: bool)
        ensures
            r == asleep(self.battery),
    {
        match &self.battery {
            Some(b) => b.idle,
            None => false,
        }
    }

    /// Take in a result, unless it was produced for an earlier device.
    pub fn receive(&mut self, gr: GenerationalResult)
        ensures
            shows(*final(self), received(*old(self), gr).0, received(*old(self), gr).1),
            old(self).wf() ==> final(self).wf(),
    {
        if gr.generation == self.device_generation {
            self.process_async_result(gr.result);
        }
    }

    /// Begin a connection: from here on, results for the device before are discarded.
    pub fn begin_connection(&mut self)
        requires
            old(self).device_generation < u64::MAX,
        ensures
            *final(self) == next_generation(*old(self)),
    {
        self.device_generation = self.device_generation + 1;
    }

    /// A device is open. `supply` is the kernel's power supply for it, if there is one. The
    /// keys that were active or selected belong to the device before.
    pub fn attach(&mut self, device: ConnectedDevice, supply: Option<String>)
        ensures
            attached(*old(self), device, supply, *final(self)),
            old(self).wf() ==> final(self).wf(),
    {
        self.active_keys = Vec::new();
        self.selected_keys = Vec::new();
        self.depth_keys = device.key_count as usize;
        if device.is_wireless {
            self.battery_source = match supply {
                Some(path) => Some(BatterySource::Kernel(path)),
                None => Some(BatterySource::Vendor),
            };
        }
        self.device = device;
        self.connected = true;
    }

    /// Say that the device is connected. Returns whether its settings can be read now: a
    /// sleeping keyboard would not answer.
    pub fn announce_connection(&mut self) -> (r: bool)
        ensures
            r == !asleep(old(self).battery),
            shows(
                *final(self),
                *old(self),
                Some(
                    if old(self).device.is_wireless && asleep(old(self).battery) {
                        SLEEPING@
                    } else {
                        "Connected to "@ + old(self).device.name@
                    },
                ),
            ),
    {
        let idle: bool = self.is_idle();
        if self.device.is_wireless && idle {
            self.status_msg = SLEEPING.to_owned();
        } else {
            self.status_msg = two("Connected to ", self.device.name.as_str());
        }
        !idle
    }

    /// No device could be opened.
    pub fn connection_failed(&mut self, message: String)
        ensures
            *final(self) == (App { status_msg: message, ..*old(self) }),
    {
        self.status_msg = message;
    }

    /// The devices that were found by a scan.
    pub fn scanned(&mut self, found: Result<Vec<PickerItem>, String>)
        ensures
            match found {
                Ok(items) => *final(self) == (App {
                    picker: DevicePicker { items, selected: 0, ..old(self).picker },
                    ..*old(self)
                }),
                Err(e) => {
                    &&& shows(
                        *final(self),
                        App {
                            picker: DevicePicker {
                                items: final(self).picker.items,
                                ..old(self).picker
                            },
                            ..*old(self)
                        },
                        Some("Device scan failed: "@ + e@),
                    )
                    &&& final(self).picker.items@.len() == 0
                },
            },
    {
        match found {
            Ok(items) => {
                self.picker.items = items;
                self.picker.selected = 0;
            },
            Err(e) => {
                self.status_msg = two("Device scan failed: ", e.as_str());
                self.picker.items = Vec::new();
            },
        }
    }

    /// Begin a connection to the device that is selected in the picker, and say which one
    /// that is.
    pub fn pick(&mut self) -> (r: Option<usize>)
        requires
            old(self).device_generation < u64::MAX,
        ensures
            *final(self) == next_generation(*old(self)),
            r == (if old(self).picker.items@.len() == 0 {
                None::<usize>
            } else if old(self).picker.selected < old(self).picker.items@.len() {
                Some(old(self).picker.selected)
            } else {
                Some((old(self).picker.items@.len() - 1) as usize)
            }),
    {
        self.begin_connection();
        let n: usize = self.picker.items.len();
        if n == 0 {
            return None;
        }
        if self.picker.selected < n {
            Some(self.picker.selected)
        } else {
            Some(n - 1)
        }
    }

    /// The picked device is open. What is shown of the device before in the device tab, its
    /// triggers, its patches, its animations and the keys that were active or selected are
    /// forgotten, and everything is to be loaded again. Options, sleep times, key rows and
    /// the battery stay until then.
    pub fn attach_picked(&mut self, place: usize, device: ConnectedDevice, supply: Option<String>)
        requires
            place < old(self).picker.items@.len(),
        ensures
            final(self).device_selector matches Some(s) && s@ == dec(
                old(self).picker.items@[place as int].label.index as nat,
            ),
            final(self).active_keys@ == Seq::<usize>::empty(),
            final(self).selected_keys@ == Seq::<usize>::empty(),
            shows(
                *final(self),
                App {
                    device_selector: final(self).device_selector,
                    active_keys: final(self).active_keys,
                    selected_keys: final(self).selected_keys,
                    picker: DevicePicker { open: false, ..old(self).picker },
                    loading: LoadingStates::nothing(),
                    info: FirmwareSettings::unknown(),
                    triggers: None,
                    patch_info: None,
                    dongle_patch_info: None,
                    firmware_check: None,
                    anim_snapshot: None,
                    ..with_device(*old(self), device, supply)
                },
                Some("Connected to "@ + device.name@),
            ),
            old(self).wf() ==> final(self).wf(),
    {
        let index: usize = self.picker.items[place].label.index;
        self.device_selector = Some(dec_string(index as u64));
        self.picker.open = false;
        self.attach(device, supply);
        self.loading = LoadingStates::default();
        self.info = FirmwareSettings::default();
        self.triggers = None;
        self.patch_info = None;
        self.dongle_patch_info = None;
        self.firmware_check = None;
        self.anim_snapshot = None;
        self.status_msg = two("Connected to ", self.device.name.as_str());
    }

    /// The picked device could not be opened.
    pub fn picked_failed(&mut self, error: &str)
        ensures
            shows(
                *final(self),
                App { picker: DevicePicker { open: false, ..old(self).picker }, ..*old(self) },
                Some("Failed to open device: "@ + error@),
            ),
    {
        self.status_msg = two("Failed to open device: ", error);
        self.picker.open = false;
    }

    /// Begin to load the key mapping, if there is a keyboard, whose page counter is given.
    pub fn load_key_mapping(&mut self, pages_read: Option<u64>) -> (r: bool)
        ensures
            *final(self) == mapping_load_begun(*old(self), pages_read),
            r == (pages_read is Some),
    {
        match pages_read {
            Some(pages) => {
                self.loading.key_mapping = LoadState::Loading;
                self.key_mapping.pages_start = pages;
                self.key_mapping.progress = None;
                true
            },
            None => false,
        }
    }

    /// Begin to load what the tab in front lacks.
    pub fn auto_load_tab(&mut self, pages_read: Option<u64>) -> (r: TabLoads)
        ensures
            *final(self) == tab_entered(*old(self), pages_read),
            r == tab_loads(*old(self), pages_read),
    {
        let mut loads: TabLoads = TabLoads { key_mapping: false, triggers: false, effects: false };
        if self.tab == 2 && self.loading.key_mapping == LoadState::NotLoaded {
            loads.key_mapping = self.load_key_mapping(pages_read);
            if self.loading.triggers == LoadState::NotLoaded {
                loads.triggers = true;
            }
        }
        if self.notify.enabled && self.tab == 3 && !self.notify.effects_loaded {
            loads.effects = true;
        }
        loads
    }

    /// Bring a tab to the front.
    pub fn switch_tab(&mut self, tab: usize, pages_read: Option<u64>) -> (r: TabLoads)
        ensures
            *final(self) == tab_entered(fronted(*old(self), tab), pages_read),
            r == tab_loads(fronted(*old(self), tab), pages_read),
            old(self).wf() && tab < old(self).tabs() ==> final(self).wf(),
    {
        self.tab = tab;
        self.selected = 0;
        self.trigger_scroll = 0;
        self.auto_load_tab(pages_read)
    }

    /// Read everything again, unless the keyboard sleeps. The battery state is fresh.
    pub fn refresh(&mut self, pages_read: Option<u64>) -> (r: RefreshLoads)
        ensures
            ({
                let idle = old(self).device.is_wireless && asleep(old(self).battery);
                &&& r == (RefreshLoads {
                    device_info: !idle,
                    options: !idle,
                    key_mapping: !idle && old(self).tab == 2 && pages_read is Some,
                    triggers: !idle && old(self).tab == 2,
                })
                &&& shows(
                    *final(self),
                    if !idle && old(self).tab == 2 {
                        mapping_load_begun(*old(self), pages_read)
                    } else {
                        *old(self)
                    },
                    Some(
                        if idle {
                            SLEEPING@
                        } else {
                            "Refreshing..."@
                        },
                    ),
                )
            }),
    {
        let idle: bool = self.device.is_wireless && self.is_idle();
        if idle {
            self.status_msg = SLEEPING.to_owned();
            return RefreshLoads {
                device_info: false,
                options: false,
                key_mapping: false,
                triggers: false,
            };
        }
        self.status_msg = "Refreshing...".to_owned();
        let mut mapping: bool = false;
        let mut triggers: bool = false;
        if self.tab == 2 {
            mapping = self.load_key_mapping(pages_read);
            triggers = true;
        }
        RefreshLoads { device_info: true, options: true, key_mapping: mapping, triggers }
    }

    /// The battery of a wireless keyboard was read again. Returns whether the keyboard has
    /// just woken up, so that its settings are to be read.
    pub fn battery_refreshed(&mut self, was_idle: bool) -> (r: bool)
        ensures
            r == (was_idle && !asleep(old(self).battery)),
            shows(
                *final(self),
                *old(self),
                if asleep(old(self).battery) {
                    Some(SLEEPING@)
                } else if was_idle {
                    Some("Keyboard awake - loading settings..."@)
                } else {
                    None
                },
            ),
    {
        if self.is_idle() {
            self.status_msg = SLEEPING.to_owned();
            false
        } else if was_idle {
            self.status_msg = "Keyboard awake - loading settings...".to_owned();
            true
        } else {
            false
        }
    }

    /// The interface closes: the LED mode that is to be set again, if a reactive mode was
    /// on.
    pub fn leave(&mut self) -> (r: Option<u8>)
        ensures
            r == old(self).reactive_prev_mode,
            match old(self).reactive_prev_mode {
                Some(mode) => *final(self) == (App {
                    reactive_prev_mode: None,
                    info: FirmwareSettings {
                        led: crate::tui_state::LedInfo { mode, ..old(self).info.led },
                        ..old(self).info
                    },
                    ..*old(self)
                }),
                None => *final(self) == *old(self),
            },
            old(self).wf() ==> final(self).wf(),
    {
        match self.reactive_prev_mode {
            Some(mode) => {
                self.reactive_prev_mode = None;
                self.info.led.mode = mode;
                Some(mode)
            },
            None => None,
        }
    }
}

/// Seconds between two looks at the battery.
pub const BATTERY_CHECK_SECS: u64 = 30;

/// Whether the battery is due to be read.
pub fn battery_is_due(is_wireless: bool, secs_since: u64) -> (r: bool)
    ensures
        r == (is_wireless && secs_since >= BATTERY_CHECK_SECS),
{
    is_wireless && secs_since >= BATTERY_CHECK_SECS
}

/// Milliseconds between two ticks: few while something moves on the screen, which is the
/// preview of a reactive mode on the device tab, or the notification tab.
pub fn tick_ms(tab: usize, audio_running: bool, screen_running: bool, notify_enabled: bool) -> (r:
    u64)
    ensures
        r == (if tab == 0 && (audio_running || screen_running) || notify_enabled && tab == 3 {
            16u64
        } else {
            100
        }),
{
    if tab == 0 && (audio_running || screen_running) || notify_enabled && tab == 3 {
        16
    } else {
        100
    }
}

/// Once a connection is begun, whatever was produced for the devices before changes
/// nothing.
pub proof fn stale_results_are_discarded(app: App, gr: GenerationalResult)
    requires
        app.device_generation < u64::MAX,
        gr.generation <= app.device_generation,
    ensures
        received(next_generation(app), gr) == (next_generation(app), None::<Seq<char>>),
{
}

/// A result for the device that is connected is never discarded.
pub proof fn current_results_are_applied(app: App, result: AsyncResult)
    ensures
        received(app, GenerationalResult { generation: app.device_generation, result }) == (
            applied(app, result),
            told(app, result),
        ),
{
}

/// Sleep times and options may arrive in either order: the options that can be edited end
/// up the same.
pub proof fn options_and_sleep_times_commute(
    app: App,
    options: crate::settings::KeyboardOptions,
    sleep: crate::settings::SleepTimeSettings,
)
    ensures
        applied(
            applied(app, AsyncResult::Options(Ok(options))),
            AsyncResult::SleepTime(Ok(sleep)),
        ).options == applied(
            applied(app, AsyncResult::SleepTime(Ok(sleep))),
            AsyncResult::Options(Ok(options)),
        ).options,
{
    lemma_sleep_times_last(app, options, sleep);
    lemma_options_last(app, options, sleep);
}

/// The options that can be edited, if the sleep times come last.
proof fn lemma_sleep_times_last(
    app: App,
    options: crate::settings::KeyboardOptions,
    sleep: crate::settings::SleepTimeSettings,
)
    ensures
        applied(
            applied(app, AsyncResult::Options(Ok(options))),
            AsyncResult::SleepTime(Ok(sleep)),
        ).options == Some(editable(options, sleep)),
{
    let between = applied(app, AsyncResult::Options(Ok(options)));
    assert(between.options is Some);
}

/// The options that can be edited, if the options come last.
proof fn lemma_options_last(
    app: App,
    options: crate::settings::KeyboardOptions,
    sleep: crate::settings::SleepTimeSettings,
)
    ensures
        applied(
            applied(app, AsyncResult::SleepTime(Ok(sleep))),
            AsyncResult::Options(Ok(options)),
        ).options == Some(editable(options, sleep)),
{
    let between = applied(app, AsyncResult::SleepTime(Ok(sleep)));
    assert(between.sleep_settings == Some(sleep));
}

/// The selection in the key mapping stays on a row while there is one, however few rows a
/// load brings.
pub proof fn selection_stays_on_a_row(app: App, rows: Vec<crate::keymap::KeyRow>)
    ensures
        ({
            let after = applied(app, AsyncResult::KeyRows(Ok(rows))).key_mapping;
            after.rows@.len() > 0 ==> after.selected < after.rows@.len()
        }),
{
}

/// Which events are left when only the latest depth of each key counts: those that no
/// later depth of the same key follows. `keys[i]` is the key of a depth event, `None` for
/// any other event.
pub open spec fn is_latest(keys: Seq<Option<u8>>, i: int) -> bool {
    &&& 0 <= i < keys.len()
    &&& keys[i] is Some
    &&& forall|j: int| i < j < keys.len() ==> #[trigger] keys[j] != keys[i]
}

/// The places below `n` for which `f` holds, in order.
pub open spec fn places_where(f: spec_fn(int) -> bool, n: nat) -> Seq<int>
    decreases n,
{
    if n == 0 {
        Seq::empty()
    } else if f(n - 1) {
        places_where(f, (n - 1) as nat).push(n - 1)
    } else {
        places_where(f, (n - 1) as nat)
    }
}

/// Whether an event is no depth.
pub open spec fn is_other(keys: Seq<Option<u8>>) -> spec_fn(int) -> bool {
    |i: int| keys[i] is None
}

/// Whether an event is the latest depth of its key.
pub open spec fn latest_of(keys: Seq<Option<u8>>) -> spec_fn(int) -> bool {
    |i: int| is_latest(keys, i)
}

/// Places as integers.
pub open spec fn as_ints(v: Seq<usize>) -> Seq<int> {
    v.map_values(|i: usize| i as int)
}

/// Whether an event is the latest depth of its key.
fn latest(keys: &[Option<u8>], i: usize) -> (r: bool)
    requires
        i < keys@.len(),
    ensures
        r == is_latest(keys@, i as int),
{
    let key: u8 = match keys[i] {
        Some(k) => k,
        None => return false,
    };
    let n: usize = keys.len();
    let mut j: usize = i + 1;
    while j < n
        invariant
            i < j <= n,
            n == keys@.len(),
            keys@[i as int] == Some(key),
            forall|m: int| i < m < j ==> #[trigger] keys@[m] != keys@[i as int],
        decreases n - j,
    {
        if let Some(k) = keys[j] {
            if k == key {
                assert(keys@[j as int] == keys@[i as int]);
                return false;
            }
        }
        j += 1;
    }
    true
}

/// Merge a batch of events: those that are no depths, all of them in order, and the latest
/// depth of each key.
pub fn coalesce(keys: &[Option<u8>]) -> (r: (Vec<usize>, Vec<usize>))
    ensures
        as_ints(r.0@) == places_where(is_other(keys@), keys@.len()),
        as_ints(r.1@) == places_where(latest_of(keys@), keys@.len()),
{
    let mut others: Vec<usize> = Vec::new();
    let mut depths: Vec<usize> = Vec::new();
    let n: usize = keys.len();
    let mut i: usize = 0;
    assert(as_ints(others@) =~= Seq::<int>::empty());
    while i < n
        invariant
            i <= n,
            n == keys@.len(),
            as_ints(others@) == places_where(is_other(keys@), i as nat),
            as_ints(depths@) == places_where(latest_of(keys@), i as nat),
        decreases n - i,
    {
        if keys[i].is_none() {
            let ghost before = others@;
            others.push(i);
            assert(as_ints(others@) =~= as_ints(before).push(i as int));
        } else if latest(keys, i) {
            let ghost before = depths@;
            depths.push(i);
            assert(as_ints(depths@) =~= as_ints(before).push(i as int));
        }
        assert(is_other(keys@)(i as int) == (keys@[i as int] is None));
        assert(latest_of(keys@)(i as int) == is_latest(keys@, i as int));
        i += 1;
    }
    (others, depths)
}

/// Of the depth events of a key exactly one is kept, and none of them follows it.
pub proof fn coalescing_keeps_each_key(keys: Seq<Option<u8>>, key: u8, i: int)
    requires
        0 <= i < keys.len(),
        keys[i] == Some(key),
    ensures
        exists|j: int| i <= j && #[trigger] is_latest(keys, j) && keys[j] == Some(key),
        forall|a: int, b: int|
            #![trigger is_latest(keys, a), is_latest(keys, b)]
            is_latest(keys, a) && is_latest(keys, b) && keys[a] == keys[b] ==> a == b,
    decreases keys.len() - i,
{
    if is_latest(keys, i) {
    } else {
        let j = choose|j: int| i < j < keys.len() && #[trigger] keys[j] == keys[i];
        coalescing_keeps_each_key(keys, key, j);
    }
    assert forall|a: int, b: int|
        #![trigger is_latest(keys, a), is_latest(keys, b)]
        is_latest(keys, a) && is_latest(keys, b) && keys[a] == keys[b] implies a == b by {
        if a < b {
            assert(keys[b] != keys[a]);
        } else if b < a {
            assert(keys[a] != keys[b]);
        }
    }
}

} // verus!
