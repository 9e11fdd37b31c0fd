//! The device database: what is known of each product and its key matrix.

use crate::text::str_eq;
use vstd::prelude::*;

verus! {

/// A product.
#[derive(Debug, Clone, PartialEq, Eq)]
pub struct DeviceDefinition {
    /// Firmware device ID. A few are shared by several products.
    pub id: i32,
    pub vid: u16,
    pub pid: u16,
    pub name: String,
    pub display_name: String,
    pub company: String,
    pub key_count: Option<u8>,
    /// Whether it has magnetic switches.
    pub magnetism: bool,
    /// Polling rates that it accepts, fastest first.
    pub polling_rates: Vec<u16>,
    /// What it takes to change the polling rate.
    pub polling_rate: PollingRateSupport,
}

/// What it takes to change a device's polling rate.
#[derive(Debug, Clone, Copy, PartialEq, Eq, Structural)]
pub enum PollingRateSupport {
    /// It cannot be changed.
    Unsupported,
    /// It can be changed.
    Supported,
    /// It can be changed except over Bluetooth.
    NotOverBluetooth,
}

/// The key matrix of a product.
#[derive(Debug, Clone, PartialEq, Eq)]
pub struct DeviceMatrix {
    pub vid: u16,
    pub pid: u16,
    pub device_id: i32,
    /// Name per position; empty where there is no key.
    pub key_names: Vec<String>,
    /// Factory keycode per position.
    pub matrix: Vec<u8>,
    /// Positions that are no magnetic switches, where known.
    pub non_analog_positions: Option<Vec<u8>>,
}

impl DeviceMatrix {
    /// The name of a position, if it has one.
    pub open spec fn name(self, i: int) -> Option<Seq<char>> {
        if 0 <= i < self.key_names@.len() && self.key_names@[i]@.len() > 0 {
            Some(self.key_names@[i]@)
        } else {
            None
        }
    }

    /// Number of positions.
    pub fn matrix_size(&self) -> (r: usize)
        ensures
            r == self.key_names@.len(),
    {
        self.key_names.len()
    }

    /// The name of a position, if it has one.
    pub fn key_name(&self, i: usize) -> (r: Option<&str>)
        ensures
            match r {
                Some(n) => self.name(i as int) == Some(n@),
                None => self.name(i as int) is None,
            },
    {
        if i < self.key_names.len() {
            let n: &str = self.key_names[i].as_str();
            if n.unicode_len() > 0 {
                return Some(n);
            }
        }
        None
    }
}

/// The device database.
#[derive(Debug, Clone, PartialEq, Eq)]
pub struct DeviceDatabase {
    pub devices: Vec<DeviceDefinition>,
    pub matrices: Vec<DeviceMatrix>,
    pub version: u32,
}

/// The first product for which `f` holds.
pub open spec fn first_device(
    devices: Seq<DeviceDefinition>,
    f: spec_fn(DeviceDefinition) -> bool,
) -> Option<DeviceDefinition>
    decreases devices.len(),
{
    if devices.len() == 0 {
        None
    } else if f(devices[0]) {
        Some(devices[0])
    } else {
        first_device(devices.drop_first(), f)
    }
}

/// How many products have a firmware device ID.
pub open spec fn count_id(devices: Seq<DeviceDefinition>, id: i32) -> nat
    decreases devices.len(),
{
    if devices.len() == 0 {
        0
    } else {
        count_id(devices.drop_first(), id) + (if devices[0].id == id {
            1nat
        } else {
            0nat
        })
    }
}

/// The first matrix of a product.
pub open spec fn first_matrix(
    matrices: Seq<DeviceMatrix>,
    vid: u16,
    pid: u16,
    device_id: i32,
) -> Option<DeviceMatrix>
    decreases matrices.len(),
{
    if matrices.len() == 0 {
        None
    } else if matrices[0].vid == vid && matrices[0].pid == pid && matrices[0].device_id
        == device_id {
        Some(matrices[0])
    } else {
        first_matrix(matrices.drop_first(), vid, pid, device_id)
    }
}

/// What a reference refers to.
pub open spec fn pointee<T>(r: Option<&T>) -> Option<T> {
    match r {
        Some(t) => Some(*t),
        None => None,
    }
}

impl DeviceDatabase {
    /// The first product with USB IDs.
    pub open spec fn by_usb(self, vid: u16, pid: u16) -> Option<DeviceDefinition> {
        first_device(self.devices@, |d: DeviceDefinition| d.vid == vid && d.pid == pid)
    }

    /// The product with a firmware device ID, if there is only one.
    pub open spec fn by_id(self, id: i32) -> Option<DeviceDefinition> {
        if count_id(self.devices@, id) == 1 {
            first_device(self.devices@, |d: DeviceDefinition| d.id == id)
        } else {
            None
        }
    }

    /// The product with a firmware device ID; among several, the first with the USB IDs.
    pub open spec fn by_id_and_usb(self, id: i32, vid: u16, pid: u16) -> Option<DeviceDefinition> {
        match self.by_id(id) {
            Some(d) => Some(d),
            None => first_device(
                self.devices@,
                |d: DeviceDefinition| d.id == id && d.vid == vid && d.pid == pid,
            ),
        }
    }

    /// The first product with USB IDs that a company sells, or else the first with them.
    pub open spec fn by_usb_and_company(
        self,
        vid: u16,
        pid: u16,
        company: Seq<char>,
    ) -> Option<DeviceDefinition> {
        match first_device(
            self.devices@,
            |d: DeviceDefinition| d.vid == vid && d.pid == pid && d.company@ == company,
        ) {
            Some(d) => Some(d),
            None => self.by_usb(vid, pid),
        }
    }

    /// The first product with USB IDs.
    pub fn find_by_vid_pid(&self, vid: u16, pid: u16) -> (r: Option<&DeviceDefinition>)
        ensures
            pointee(r) == self.by_usb(vid, pid),
    {
        let ghost f = |d: DeviceDefinition| d.vid == vid && d.pid == pid;
        let mut i: usize = 0;
        assert(self.devices@.skip(0) =~= self.devices@);
        while i < self.devices.len()
            invariant
                i <= self.devices@.len(),
                f == (|d: DeviceDefinition| d.vid == vid && d.pid == pid),
                first_device(self.devices@, f) == first_device(self.devices@.skip(i as int), f),
            decreases self.devices@.len() - i,
        {
            assert(self.devices@.skip(i as int).drop_first() =~= self.devices@.skip(i + 1));
            if self.devices[i].vid == vid && self.devices[i].pid == pid {
                return Some(&self.devices[i]);
            }
            i += 1;
        }
        None
    }

    /// The product with a firmware device ID, if there is only one.
    pub fn find_by_id(&self, id: i32) -> (r: Option<&DeviceDefinition>)
        ensures
            pointee(r) == self.by_id(id),
    {
        let ghost f = |d: DeviceDefinition| d.id == id;
        let mut found: Option<usize> = None;
        let mut i: usize = 0;
        assert(self.devices@.skip(0) =~= self.devices@);
        while i < self.devices.len()
            invariant
                i <= self.devices@.len(),
                f == (|d: DeviceDefinition| d.id == id),
                match found {
                    None => count_id(self.devices@, id) == count_id(
                        self.devices@.skip(i as int),
                        id,
                    ) && first_device(self.devices@, f) == first_device(
                        self.devices@.skip(i as int),
                        f,
                    ),
                    Some(k) => k < i && count_id(self.devices@, id) == 1 + count_id(
                        self.devices@.skip(i as int),
                        id,
                    ) && first_device(self.devices@, f) == Some(self.devices@[k as int]),
                },
            decreases self.devices@.len() - i,
        {
            assert(self.devices@.skip(i as int).drop_first() =~= self.devices@.skip(i + 1));
            if self.devices[i].id == id {
                if found.is_some() {
                    assert(count_id(self.devices@, id) >= 2);
                    return None;
                }
                found = Some(i);
            }
            i += 1;
        }
        match found {
            Some(k) => Some(&self.devices[k]),
            None => None,
        }
    }

    /// The product with a firmware device ID; among several, the first with the USB IDs.
    pub fn find_by_id_and_usb(&self, id: i32, vid: u16, pid: u16) -> (r: Option<&DeviceDefinition>)
        ensures
            pointee(r) == self.by_id_and_usb(id, vid, pid),
    {
        if let Some(d) = self.find_by_id(id) {
            return Some(d);
        }
        let ghost f = |d: DeviceDefinition| d.id == id && d.vid == vid && d.pid == pid;
        let mut i: usize = 0;
        assert(self.devices@.skip(0) =~= self.devices@);
        while i < self.devices.len()
            invariant
                i <= self.devices@.len(),
                f == (|d: DeviceDefinition| d.id == id && d.vid == vid && d.pid == pid),
                self.by_id(id) is None,
                first_device(self.devices@, f) == first_device(self.devices@.skip(i as int), f),
            decreases self.devices@.len() - i,
        {
            assert(self.devices@.skip(i as int).drop_first() =~= self.devices@.skip(i + 1));
            if self.devices[i].id == id && self.devices[i].vid == vid && self.devices[i].pid
                == pid {
                return Some(&self.devices[i]);
            }
            i += 1;
        }
        None
    }

    /// The first product with USB IDs that a company sells, or else the first with them.
    pub fn find_by_vid_pid_company(&self, vid: u16, pid: u16, company: &str) -> (r: Option<
        &DeviceDefinition,
    >)
        ensures
            pointee(r) == self.by_usb_and_company(vid, pid, company@),
    {
        let ghost f = |d: DeviceDefinition| d.vid == vid && d.pid == pid && d.company@ == company@;
        let mut i: usize = 0;
        assert(self.devices@.skip(0) =~= self.devices@);
        while i < self.devices.len()
            invariant
                i <= self.devices@.len(),
                f == (|d: DeviceDefinition|
                    d.vid == vid && d.pid == pid && d.company@ == company@),
                first_device(self.devices@, f) == first_device(self.devices@.skip(i as int), f),
            decreases self.devices@.len() - i,
        {
            assert(self.devices@.skip(i as int).drop_first() =~= self.devices@.skip(i + 1));
            if self.devices[i].vid == vid && self.devices[i].pid == pid && str_eq(
                self.devices[i].company.as_str(),
                company,
            ) {
                return Some(&self.devices[i]);
            }
            i += 1;
        }
        self.find_by_vid_pid(vid, pid)
    }

    /// The matrix of a product.
    pub fn get_matrix(&self, vid: u16, pid: u16, device_id: i32) -> (r: Option<&DeviceMatrix>)
        ensures
            pointee(r) == first_matrix(self.matrices@, vid, pid, device_id),
    {
        let mut i: usize = 0;
        assert(self.matrices@.skip(0) =~= self.matrices@);
        while i < self.matrices.len()
            invariant
                i <= self.matrices@.len(),
                first_matrix(self.matrices@, vid, pid, device_id) == first_matrix(
                    self.matrices@.skip(i as int),
                    vid,
                    pid,
                    device_id,
                ),
            decreases self.matrices@.len() - i,
        {
            assert(self.matrices@.skip(i as int).drop_first() =~= self.matrices@.skip(i + 1));
            if self.matrices[i].vid == vid && self.matrices[i].pid == pid
                && self.matrices[i].device_id == device_id {
                return Some(&self.matrices[i]);
            }
            i += 1;
        }
        None
    }

    /// Number of products.
    pub fn len(&self) -> (r: usize)
        ensures
            r == self.devices@.len(),
    {
        self.devices.len()
    }

    /// Version of the database.
    pub fn version(&self) -> (r: u32)
        ensures
            r == self.version,
    {
        self.version
    }
}

/// Whether the polling rate can be changed over a link.
pub fn polling_rate_support(support: PollingRateSupport, over_bluetooth: bool) -> (r: PollingRateSupport)
    ensures
        r == (if over_bluetooth && support == PollingRateSupport::NotOverBluetooth {
            PollingRateSupport::Unsupported
        } else {
            support
        }),
{
    if over_bluetooth {
        match support {
            PollingRateSupport::NotOverBluetooth => PollingRateSupport::Unsupported,
            other => other,
        }
    } else {
        support
    }
}

/// A product whose firmware device ID is its own is found by that ID, whatever USB IDs
/// it was reached through.
pub proof fn unique_id_decides(db: DeviceDatabase, id: i32, vid: u16, pid: u16)
    requires
        count_id(db.devices@, id) == 1,
    ensures
        db.by_id_and_usb(id, vid, pid) == db.by_id(id),
        db.by_id(id) is Some,
        db.by_id(id)->0.id == id,
{
    lemma_counted_id_is_found(db.devices@, id);
}

/// An ID that occurs is found.
proof fn lemma_counted_id_is_found(devices: Seq<DeviceDefinition>, id: i32)
    requires
        count_id(devices, id) > 0,
    ensures
        first_device(devices, |d: DeviceDefinition| d.id == id) is Some,
        first_device(devices, |d: DeviceDefinition| d.id == id)->0.id == id,
    decreases devices.len(),
{
    if devices[0].id != id {
        lemma_counted_id_is_found(devices.drop_first(), id);
    }
}

} // verus!
