//! What a freshly opened keyboard is set up with.

use crate::commands::{choose_profile, error_text, CmdCtx};
use crate::depth::TransportType;
use crate::device_db::{
    pointee, polling_rate_support, DeviceDatabase, DeviceDefinition, DeviceMatrix,
    PollingRateSupport,
};
use crate::error::KeyboardError;
use crate::keyboard::KeyboardInterface;
use crate::protocol::Profile;
use crate::registry::{in_database, name_views, resolved_names, ProfileRegistry};
use crate::text::{hex4_lower, push_hex4_lower};
use vstd::prelude::*;

verus! {

/// The database entry of a device: by firmware device ID where that is known, or else by
/// USB IDs.
pub open spec fn definition_of(
    registry: ProfileRegistry,
    device_id: Option<i32>,
    vid: u16,
    pid: u16,
) -> Option<DeviceDefinition> {
    match entry_by_id(registry, device_id, vid, pid) {
        Some(d) => Some(d),
        None => in_database(registry.database(), |db: DeviceDatabase| db.by_usb(vid, pid)),
    }
}

/// The database entry of a firmware device ID, where that is known.
pub open spec fn entry_by_id(
    registry: ProfileRegistry,
    device_id: Option<i32>,
    vid: u16,
    pid: u16,
) -> Option<DeviceDefinition> {
    match device_id {
        Some(id) => in_database(
            registry.database(),
            |db: DeviceDatabase| db.by_id_and_usb(id, vid, pid),
        ),
        None => None,
    }
}

/// What polling rate control, if any, a connected device offers: what it takes, and the
/// rates that it accepts, fastest first. An unknown device has no control at all, since
/// writing a rate that the firmware does not implement has no defined behaviour.
pub fn resolve_polling_rate(
    registry: &ProfileRegistry,
    device_id: Option<i32>,
    vid: u16,
    pid: u16,
    transport: TransportType,
) -> (r: (PollingRateSupport, Vec<u16>))
    ensures
        match definition_of(*registry, device_id, vid, pid) {
            Some(d) => {
                &&& r.0 == (if transport == TransportType::Bluetooth && d.polling_rate
                    == PollingRateSupport::NotOverBluetooth {
                    PollingRateSupport::Unsupported
                } else {
                    d.polling_rate
                })
                &&& r.1@ == d.polling_rates@
            },
            None => r.0 == PollingRateSupport::Unsupported && r.1@.len() == 0,
        },
{
    let by_id: Option<&DeviceDefinition> = match device_id {
        Some(id) => registry.get_device_info_by_id_and_usb(id, vid, pid),
        None => None,
    };
    let found: Option<&DeviceDefinition> = match by_id {
        Some(d) => Some(d),
        None => registry.get_device_info(vid, pid),
    };
    match found {
        Some(d) => {
            let over_bluetooth: bool = match transport {
                TransportType::Bluetooth => true,
                _ => false,
            };
            (polling_rate_support(d.polling_rate, over_bluetooth), copy_rates(&d.polling_rates))
        },
        None => (PollingRateSupport::Unsupported, Vec::new()),
    }
}

/// The same rates once more.
fn copy_rates(v: &Vec<u16>) -> (r: Vec<u16>)
    ensures
        r@ == v@,
{
    let mut out: Vec<u16> = Vec::new();
    let mut i: usize = 0;
    while i < v.len()
        invariant
            i <= v@.len(),
            out@ == v@.take(i as int),
        decreases v@.len() - i,
    {
        out.push(v[i]);
        assert(out@ =~= v@.take(i + 1));
        i += 1;
    }
    assert(v@.take(i as int) =~= v@);
    out
}

/// What a device is called: as the tables call it, or as it calls itself, or by its USB
/// IDs.
pub open spec fn shown_name(
    model: Option<Seq<char>>,
    product: Option<Seq<char>>,
    vid: u16,
    pid: u16,
) -> Seq<char> {
    match model {
        Some(n) => n,
        None => match product {
            Some(n) => n,
            None => "Device "@ + hex4_lower(vid) + ":"@ + hex4_lower(pid),
        },
    }
}

/// Text that may be missing.
pub open spec fn maybe_text(t: Option<String>) -> Option<Seq<char>> {
    match t {
        Some(s) => Some(s@),
        None => None,
    }
}

/// What a device is called: as the tables call it, or as it calls itself, or by its USB
/// IDs.
pub fn device_title(model: &Option<String>, product: &Option<String>, vid: u16, pid: u16) -> (r: String)
    ensures
        r@ == shown_name(maybe_text(*model), maybe_text(*product), vid, pid),
{
    match model {
        Some(n) => n.clone(),
        None => match product {
            Some(n) => n.clone(),
            None => {
                let mut out: String = "Device ".to_owned();
                push_hex4_lower(&mut out, vid);
                out.append(":");
                push_hex4_lower(&mut out, pid);
                out
            },
        },
    }
}

/// The matrix of a device, where its firmware device ID is known.
pub open spec fn known_matrix(
    registry: ProfileRegistry,
    device_id: Option<i32>,
    vid: u16,
    pid: u16,
) -> Option<DeviceMatrix> {
    match device_id {
        Some(id) => registry.matrix_of(vid, pid, id),
        None => None,
    }
}

/// The key names of a device.
pub open spec fn known_names(
    registry: ProfileRegistry,
    device_id: Option<i32>,
    vid: u16,
    pid: u16,
) -> Option<Seq<Seq<char>>> {
    resolved_names(
        match device_id {
            Some(id) => registry.id_profile(id as u32),
            None => None,
        },
        known_matrix(registry, device_id, vid, pid),
        registry.usb_profile(vid, pid),
    )
}

/// Whether `new` is `kb` with its profile and its polling rates set, and with what the
/// tables know of its matrix.
pub open spec fn set_up_as(
    new: KeyboardInterface,
    kb: KeyboardInterface,
    registry: ProfileRegistry,
    device_id: Option<i32>,
    rates: Seq<u16>,
    profile: Profile,
) -> bool {
    let matrix = known_matrix(registry, device_id, kb.device.vid, kb.device.pid);
    &&& new.device == kb.device
    &&& new.key_count == kb.key_count
    &&& new.has_magnetism == kb.has_magnetism
    &&& new.commands == kb.commands
    &&& new.rate_codes == kb.rate_codes
    &&& new.active_profile == profile
    &&& new.polling_rates@ == rates
    &&& name_views(new.matrix_key_names@) == (match known_names(
        registry,
        device_id,
        kb.device.vid,
        kb.device.pid,
    ) {
        Some(names) => names,
        None => name_views(kb.matrix_key_names@),
    })
    &&& new.matrix_defaults@ == (match matrix {
        Some(m) => m.matrix@,
        None => kb.matrix_defaults@,
    })
    &&& new.non_analog_positions@ == (match matrix {
        Some(m) => match m.non_analog_positions {
            Some(p) => p@,
            None => kb.non_analog_positions@,
        },
        None => kb.non_analog_positions@,
    })
}

/// Set a keyboard up with its profile, its polling rates and what the tables know of its
/// matrix.
fn set_up(
    kb: KeyboardInterface,
    registry: &ProfileRegistry,
    device_id: Option<i32>,
    rates: Vec<u16>,
    profile: Profile,
) -> (r: KeyboardInterface)
    requires
        registry.wf(),
    ensures
        set_up_as(r, kb, *registry, device_id, rates@, profile),
{
    let mut out: KeyboardInterface = kb;
    let vid: u16 = out.device.vid;
    let pid: u16 = out.device.pid;
    out.set_polling_rates(rates);
    let matrix: Option<&DeviceMatrix> = match device_id {
        Some(id) => registry.get_device_matrix(vid, pid, id),
        None => None,
    };
    assert(pointee(matrix) == known_matrix(*registry, device_id, vid, pid));
    if let Some(names) = registry.resolve_matrix_key_names(device_id, vid, pid) {
        out.set_matrix_key_names(names);
    }
    if let Some(m) = matrix {
        out.set_matrix_defaults(crate::bits::copy_bytes(m.matrix.as_slice()));
    }
    out.set_active_profile(profile);
    if let Some(m) = matrix {
        if let Some(positions) = &m.non_analog_positions {
            out.set_non_analog_positions(crate::bits::copy_bytes(positions.as_slice()));
        }
    }
    out
}

/// Set up a keyboard for a command. Its settable polling rates are capped at what its
/// model supports, as far as that is known.
///
/// Keymatrix and Fn operations target the active profile, so without one that was asked
/// for, the board has to tell it: assuming one could send every later write to storage
/// that the user is not looking at.
pub fn open_keyboard(
    ctx: &CmdCtx,
    kb: KeyboardInterface,
    registry: &ProfileRegistry,
    device_id: Option<i32>,
    queried: Result<Profile, KeyboardError>,
) -> (r: Result<KeyboardInterface, String>)
    requires
        registry.wf(),
    ensures
        match (ctx.profile, queried) {
            (None, Err(e)) => r matches Err(m) && m@ == "could not determine the active profile ("@
                + error_text(e@) + "); pass --profile to choose one"@,
            (forced, q) => r matches Ok(new) && set_up_as(
                new,
                kb,
                *registry,
                device_id,
                match entry_by_id(*registry, device_id, kb.device.vid, kb.device.pid) {
                    Some(d) => d.polling_rates@,
                    None => kb.polling_rates@,
                },
                match forced {
                    Some(p) => p,
                    None => q->Ok_0,
                },
            ),
        },
{
    let profile: Profile = match choose_profile(ctx.profile, queried) {
        Ok(p) => p,
        Err(m) => return Err(m),
    };
    let entry: Option<&DeviceDefinition> = match device_id {
        Some(id) => registry.get_device_info_by_id_and_usb(id, kb.device.vid, kb.device.pid),
        None => None,
    };
    assert(pointee(entry) == entry_by_id(*registry, device_id, kb.device.vid, kb.device.pid));
    let rates: Vec<u16> = match entry {
        Some(d) => copy_rates(&d.polling_rates),
        None => copy_rates(&kb.polling_rates),
    };
    Ok(set_up(kb, registry, device_id, rates, profile))
}

/// What the product tables say of a device.
pub struct DeviceFacts {
    /// One past the highest matrix position in use.
    pub key_count: u8,
    /// Number of keys that a person counts.
    pub display_key_count: u8,
    pub has_magnetism: bool,
    pub has_sidelight: bool,
    pub display_name: Option<String>,
}

/// A device that the terminal interface is connected to.
pub struct ConnectedDevice {
    pub name: String,
    pub transport_name: &'static str,
    /// Size of the per-key buffers, empty scan cells included.
    pub key_count: u8,
    /// Number of keys that a person counts.
    pub display_key_count: u8,
    pub has_sidelight: bool,
    pub has_magnetism: bool,
    pub matrix_size: usize,
    pub matrix_key_names: Vec<String>,
    pub is_wireless: bool,
    pub polling_rate_support: PollingRateSupport,
    /// Polling rates that it accepts, fastest first.
    pub polling_rates: Vec<u16>,
}

/// The name of every position of a matrix.
pub open spec fn position_names(kb: KeyboardInterface) -> Seq<Seq<char>> {
    Seq::new(kb.matrix_len(), |i: int| kb.name_at(i))
}

/// The name of every position of a matrix.
fn names_of_positions(kb: &KeyboardInterface) -> (r: Vec<String>)
    ensures
        name_views(r@) == position_names(*kb),
{
    let mut out: Vec<String> = Vec::new();
    let n: usize = kb.matrix_size();
    let mut i: usize = 0;
    while i < n
        invariant
            i <= n,
            n == kb.matrix_len(),
            name_views(out@) =~= position_names(*kb).take(i as int),
        decreases n - i,
    {
        let ghost before = out@;
        out.push(kb.matrix_key_name(i).to_owned());
        assert(name_views(out@) =~= name_views(before).push(kb.name_at(i as int)));
        assert(position_names(*kb).take(i + 1) =~= position_names(*kb).take(i as int).push(
            kb.name_at(i as int),
        ));
        i += 1;
    }
    assert(position_names(*kb).take(n as int) =~= position_names(*kb));
    out
}

/// Whether a device is described as the tables and the keyboard say.
pub open spec fn described_as(
    d: ConnectedDevice,
    kb: KeyboardInterface,
    facts: DeviceFacts,
    transport: TransportType,
) -> bool {
    &&& d.name@ == shown_name(
        maybe_text(facts.display_name),
        maybe_text(kb.device.product_name),
        kb.device.vid,
        kb.device.pid,
    )
    &&& d.transport_name@ == transport.short_name()
    &&& d.key_count == facts.key_count
    &&& d.display_key_count == facts.display_key_count
    &&& d.has_sidelight == facts.has_sidelight
    &&& d.has_magnetism == facts.has_magnetism
    &&& d.matrix_size == kb.matrix_len()
    &&& name_views(d.matrix_key_names@) == position_names(kb)
    &&& d.is_wireless == kb.device.wireless
    &&& d.polling_rates@ == kb.polling_rates@
}

/// Set up a keyboard for the terminal interface, and describe it. Per-profile data is read
/// and written against whichever profile the board runs, the first if it does not tell.
pub fn open_for_display(
    kb: KeyboardInterface,
    registry: &ProfileRegistry,
    device_id: Option<i32>,
    transport: TransportType,
    facts: &DeviceFacts,
    queried: Result<Profile, KeyboardError>,
) -> (r: (KeyboardInterface, ConnectedDevice))
    requires
        registry.wf(),
    ensures
        described_as(r.1, r.0, *facts, transport),
        match definition_of(*registry, device_id, kb.device.vid, kb.device.pid) {
            Some(d) => {
                &&& r.1.polling_rate_support == (if transport == TransportType::Bluetooth
                    && d.polling_rate == PollingRateSupport::NotOverBluetooth {
                    PollingRateSupport::Unsupported
                } else {
                    d.polling_rate
                })
                &&& r.1.polling_rates@ == d.polling_rates@
            },
            None => r.1.polling_rate_support == PollingRateSupport::Unsupported
                && r.1.polling_rates@.len() == 0,
        },
        set_up_as(
            r.0,
            kb,
            *registry,
            device_id,
            r.1.polling_rates@,
            match queried {
                Ok(p) => p,
                Err(_) => Profile::First,
            },
        ),
{
    let (support, rates) = resolve_polling_rate(
        registry,
        device_id,
        kb.device.vid,
        kb.device.pid,
        transport,
    );
    let profile: Profile = match queried {
        Ok(p) => p,
        Err(_) => Profile::First,
    };
    let kept: Vec<u16> = copy_rates(&rates);
    let ready: KeyboardInterface = set_up(kb, registry, device_id, rates, profile);
    let device: ConnectedDevice = ConnectedDevice {
        name: device_title(
            &facts.display_name,
            &ready.device.product_name,
            ready.device.vid,
            ready.device.pid,
        ),
        transport_name: crate::depth::transport_type_name(transport),
        key_count: facts.key_count,
        display_key_count: facts.display_key_count,
        has_sidelight: facts.has_sidelight,
        has_magnetism: facts.has_magnetism,
        matrix_size: ready.matrix_size(),
        matrix_key_names: names_of_positions(&ready),
        is_wireless: ready.is_wireless(),
        polling_rate_support: support,
        polling_rates: kept,
    };
    (ready, device)
}

} // verus!
