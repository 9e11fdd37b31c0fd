//! The registry of device profiles, and the resolution of key names.

use crate::device_db::{
    first_matrix, pointee, DeviceDatabase, DeviceDefinition, DeviceMatrix,
};
use crate::text::str_eq;
use std::collections::HashMap;
use vstd::prelude::*;
use vstd::std_specs::iter::IteratorSpec;

verus! {

/// Firmware device ID of the M1 V5 HE, whatever transport it is reached through.
pub const M1_V5_HE_ID: u32 = 2949;

/// USB vendor ID of the M1 V5 HE.
pub const M1_V5_HE_VID: u16 = 0x3151;

/// USB product ID of the wired M1 V5 HE.
pub const M1_V5_HE_WIRED_PID: u16 = 0x5030;

/// Product ID of the M1 V5 HE over Bluetooth.
pub const M1_V5_HE_WIRELESS_PID: u16 = 0x503A;

/// USB product ID of the M1 V5 HE's dongle.
pub const M1_V5_HE_DONGLE_PID: u16 = 0x5038;

/// Physical inputs of the M1 V5 HE: 81 switches and the encoder.
pub const M1_V5_HE_KEYS: u8 = 82;

/// A hand-curated device profile.
#[derive(Debug, PartialEq, Eq)]
pub struct DeviceProfile {
    pub id: u32,
    pub vid: u16,
    pub pid: u16,
    pub display_name: String,
    /// Physical inputs, not matrix positions.
    pub key_count: u8,
    /// Name per matrix position; empty where the profile names nothing.
    pub key_names: Vec<String>,
}

/// A copy of a list of names.
pub fn copy_names(names: &Vec<String>) -> (r: Vec<String>)
    ensures
        name_views(r@) == name_views(names@),
{
    let mut out: Vec<String> = Vec::new();
    let mut i: usize = 0;
    while i < names.len()
        invariant
            i <= names@.len(),
            out@.len() == i,
            forall|k: int| 0 <= k < i ==> (#[trigger] out@[k])@ == names@[k]@,
        decreases names@.len() - i,
    {
        out.push(names[i].clone());
        i += 1;
    }
    assert(name_views(out@) =~= name_views(names@));
    out
}

/// Names as characters.
pub open spec fn name_views(names: Seq<String>) -> Seq<Seq<char>> {
    names.map_values(|s: String| s@)
}

/// A [`DeviceProfile`] with its texts as characters.
#[verifier::ext_equal]
pub struct ProfileView {
    pub id: u32,
    pub vid: u16,
    pub pid: u16,
    pub display_name: Seq<char>,
    pub key_count: u8,
    pub key_names: Seq<Seq<char>>,
}

impl View for DeviceProfile {
    type V = ProfileView;

    open spec fn view(&self) -> ProfileView {
        ProfileView {
            id: self.id,
            vid: self.vid,
            pid: self.pid,
            display_name: self.display_name@,
            key_count: self.key_count,
            key_names: name_views(self.key_names@),
        }
    }
}

impl DeviceProfile {
    /// The same profile once more.
    pub fn copy(&self) -> (r: DeviceProfile)
        ensures
            r@ == self@,
    {
        DeviceProfile {
            id: self.id,
            vid: self.vid,
            pid: self.pid,
            display_name: self.display_name.clone(),
            key_count: self.key_count,
            key_names: copy_names(&self.key_names),
        }
    }
}

/// The profile of the M1 V5 HE over a transport.
pub open spec fn m1_v5_he(pid: u16, display_name: Seq<char>, key_names: Seq<Seq<char>>) -> ProfileView {
    ProfileView {
        id: M1_V5_HE_ID,
        vid: M1_V5_HE_VID,
        pid,
        display_name,
        key_count: M1_V5_HE_KEYS,
        key_names,
    }
}

/// The builtin profiles, in the order in which they are registered. The wired one comes
/// last, so that it is the one that the shared device ID stands for.
pub open spec fn builtins(key_names: Seq<Seq<char>>) -> Seq<ProfileView> {
    seq![
        m1_v5_he(M1_V5_HE_WIRELESS_PID, "MonsGeek M1 V5 HE (Wireless)"@, key_names),
        m1_v5_he(M1_V5_HE_DONGLE_PID, "MonsGeek M1 V5 HE (Dongle)"@, key_names),
        m1_v5_he(M1_V5_HE_WIRED_PID, "MonsGeek M1 V5 HE"@, key_names),
    ]
}

/// The profile of the M1 V5 HE over a transport.
fn build_m1_v5_he(pid: u16, display_name: &str, key_names: &Vec<String>) -> (r: DeviceProfile)
    ensures
        r@ == m1_v5_he(pid, display_name@, name_views(key_names@)),
{
    DeviceProfile {
        id: M1_V5_HE_ID,
        vid: M1_V5_HE_VID,
        pid,
        display_name: display_name.to_owned(),
        key_count: M1_V5_HE_KEYS,
        key_names: copy_names(key_names),
    }
}

/// Two USB IDs as one number.
pub open spec fn usb_key(vid: u16, pid: u16) -> u32 {
    (vid * 0x10000 + pid) as u32
}

/// Two USB IDs as one number.
fn make_usb_key(vid: u16, pid: u16) -> (r: u32)
    ensures
        r == usb_key(vid, pid),
{
    vid as u32 * 0x10000 + pid as u32
}

/// USB IDs that give the same number are the same.
proof fn lemma_usb_key(vid: u16, pid: u16)
    ensures
        usb_key(vid, pid) / 0x10000 == vid,
        usb_key(vid, pid) % 0x10000 == pid,
{
}

/// The places of the profiles with USB IDs, in order.
pub open spec fn places(profiles: Seq<DeviceProfile>, key: u32) -> Seq<usize>
    decreases profiles.len(),
{
    if profiles.len() == 0 {
        Seq::empty()
    } else {
        let before = places(profiles.drop_last(), key);
        if usb_key(profiles.last().vid, profiles.last().pid) == key {
            before.push((profiles.len() - 1) as usize)
        } else {
            before
        }
    }
}

/// The place of the last profile with a device ID.
pub open spec fn last_place(profiles: Seq<DeviceProfile>, id: u32) -> Option<usize>
    decreases profiles.len(),
{
    if profiles.len() == 0 {
        None
    } else if profiles.last().id == id {
        Some((profiles.len() - 1) as usize)
    } else {
        last_place(profiles.drop_last(), id)
    }
}

/// Places lie within the list.
proof fn lemma_places(profiles: Seq<DeviceProfile>, key: u32)
    requires
        profiles.len() <= usize::MAX,
    ensures
        forall|k: int|
            0 <= k < places(profiles, key).len() ==> {
                let p = #[trigger] places(profiles, key)[k] as int;
                p < profiles.len() && usb_key(profiles[p].vid, profiles[p].pid) == key
            },
        forall|i: int|
            0 <= i < profiles.len() && usb_key((#[trigger] profiles[i]).vid, profiles[i].pid) == key
                ==> places(profiles, key).len() > 0 && places(profiles, key)[0] <= i,
    decreases profiles.len(),
{
    if profiles.len() > 0 {
        lemma_places(profiles.drop_last(), key);
        let before = profiles.drop_last();
        assert forall|k: int| 0 <= k < places(profiles, key).len() implies ({
            let p = #[trigger] places(profiles, key)[k] as int;
            p < profiles.len() && usb_key(profiles[p].vid, profiles[p].pid) == key
        }) by {
            if k < places(before, key).len() {
                let p = places(before, key)[k] as int;
                assert(before[p] == profiles[p]);
            }
        }
        assert forall|i: int|
            0 <= i < profiles.len() && usb_key((#[trigger] profiles[i]).vid, profiles[i].pid)
                == key implies places(profiles, key).len() > 0 && places(profiles, key)[0] <= i by {
            if i < before.len() {
                assert(before[i] == profiles[i]);
            } else if places(before, key).len() > 0 {
                let p = places(before, key)[0] as int;
                assert(p < before.len());
            }
        }
    }
}

/// Registry of device profiles, with lookup by USB IDs and by device ID.
///
/// Several profiles can share USB IDs, since several products do. A device ID stands for
/// the profile that was registered last under it.
pub struct ProfileRegistry {
    /// The profiles in the order of registration.
    profiles: Vec<DeviceProfile>,
    /// Places of the profiles per USB IDs.
    by_vid_pid: HashMap<u32, Vec<usize>>,
    /// Place of the profile per device ID.
    by_id: HashMap<u32, usize>,
    device_db: Option<DeviceDatabase>,
}

/// The names of a connected device, most authoritative source first: a profile by device
/// ID whose gaps the matrix fills, the matrix, a profile by USB IDs.
pub open spec fn resolved_names(
    by_id: Option<ProfileView>,
    matrix: Option<DeviceMatrix>,
    by_usb: Option<ProfileView>,
) -> Option<Seq<Seq<char>>> {
    match by_id {
        Some(p) => Some(
            Seq::new(
                match matrix {
                    Some(m) => if m.key_names@.len() > p.key_names.len() {
                        m.key_names@.len()
                    } else {
                        p.key_names.len()
                    },
                    None => p.key_names.len(),
                },
                |i: int|
                    if i < p.key_names.len() && p.key_names[i].len() > 0 {
                        p.key_names[i]
                    } else {
                        matrix_name(matrix, i)
                    },
            ),
        ),
        None => match matrix {
            Some(m) => Some(
                Seq::new(m.key_names@.len(), |i: int| matrix_name(matrix, i)),
            ),
            None => match by_usb {
                Some(p) => Some(p.key_names),
                None => None,
            },
        },
    }
}

/// The name of a position in a matrix, empty where there is none.
pub open spec fn matrix_name(matrix: Option<DeviceMatrix>, i: int) -> Seq<char> {
    match matrix {
        Some(m) => match m.name(i) {
            Some(n) => n,
            None => ""@,
        },
        None => ""@,
    }
}

/// A matrix decides before a profile that is matched by USB IDs only: where there is a
/// matrix, that profile makes no difference.
pub proof fn matrix_precedes_shared_usb_ids(
    by_id: Option<ProfileView>,
    matrix: DeviceMatrix,
    by_usb: Option<ProfileView>,
    other: Option<ProfileView>,
)
    ensures
        resolved_names(by_id, Some(matrix), by_usb) == resolved_names(by_id, Some(matrix), other),
        resolved_names(by_id, Some(matrix), by_usb) is Some,
{
}

/// A profile by device ID wins wherever it names a position, and the matrix fills the
/// positions it leaves.
pub proof fn curated_names_win(
    profile: ProfileView,
    matrix: Option<DeviceMatrix>,
    by_usb: Option<ProfileView>,
    i: int,
)
    requires
        0 <= i,
    ensures
        ({
            let found = resolved_names(Some(profile), matrix, by_usb);
            let names = found->0;
            let curated = i < profile.key_names.len() && profile.key_names[i].len() > 0;
            &&& found is Some
            &&& curated ==> i < names.len() && names[i] == profile.key_names[i]
            &&& !curated && matrix is Some && matrix->0.name(i) is Some ==> i < names.len()
                && names[i] == matrix->0.name(i)->0
        }),
{
}

/// The index of the last dot in a file name.
pub open spec fn last_dot(name: Seq<char>) -> Option<int>
    decreases name.len(),
{
    if name.len() == 0 {
        None
    } else if name.last() == '.' {
        Some(name.len() - 1)
    } else {
        last_dot(name.drop_last())
    }
}

/// Whether a file name has the extension `json`. A dot in front is no extension.
pub open spec fn is_json(name: Seq<char>) -> bool {
    match last_dot(name) {
        Some(p) => p > 0 && name.skip(p + 1) == "json"@,
        None => false,
    }
}

/// Whether a file holds a profile, by its name.
pub fn is_profile_file(name: &str) -> (r: bool)
    ensures
        r == is_json(name@),
{
    let n: usize = name.unicode_len();
    let mut i: usize = n;
    assert(name@.take(n as int) =~= name@);
    while i > 0
        invariant
            i <= n == name@.len(),
            last_dot(name@) == last_dot(name@.take(i as int)),
        decreases i,
    {
        assert(name@.take(i as int).drop_last() =~= name@.take(i - 1));
        if name.get_char(i - 1) == '.' {
            let ext: &str = name.substring_char(i, n);
            assert(ext@ =~= name@.skip(i as int));
            return i - 1 > 0 && str_eq(ext, "json");
        }
        i -= 1;
    }
    false
}

impl ProfileRegistry {
    /// The profiles in the order of registration.
    pub closed spec fn registered(self) -> Seq<ProfileView> {
        self.profiles@.map_values(|p: DeviceProfile| p@)
    }

    /// The device database.
    pub closed spec fn database(self) -> Option<DeviceDatabase> {
        self.device_db
    }

    /// Both indices say where the profiles stand.
    pub closed spec fn wf(self) -> bool {
        &&& forall|key: u32| #[trigger]
            self.by_vid_pid@.contains_key(key) == (places(self.profiles@, key).len() > 0)
        &&& forall|key: u32| #[trigger]
            self.by_vid_pid@.contains_key(key) ==> self.by_vid_pid@[key]@ == places(
                self.profiles@,
                key,
            )
        &&& forall|id: u32| #[trigger]
            self.by_id@.contains_key(id) == (last_place(self.profiles@, id) is Some)
        &&& forall|id: u32| #[trigger]
            self.by_id@.contains_key(id) ==> last_place(self.profiles@, id) == Some(
                self.by_id@[id],
            )
        &&& self.profiles@.len() <= usize::MAX
    }

    /// The first profile with USB IDs.
    pub open spec fn usb_profile(self, vid: u16, pid: u16) -> Option<ProfileView> {
        first_profile(self.registered(), vid, pid)
    }

    /// The profile that a device ID stands for: the last one registered under it.
    pub open spec fn id_profile(self, id: u32) -> Option<ProfileView> {
        last_profile(self.registered(), id)
    }

    /// The matrix of a device.
    pub open spec fn matrix_of(self, vid: u16, pid: u16, device_id: i32) -> Option<DeviceMatrix> {
        match self.database() {
            Some(db) => first_matrix(db.matrices@, vid, pid, device_id),
            None => None,
        }
    }

    /// An empty registry.
    pub fn new() -> (r: Self)
        ensures
            r.wf(),
            r.registered() == Seq::<ProfileView>::empty(),
            r.database() is None,
    {
        let r: ProfileRegistry = ProfileRegistry {
            profiles: Vec::new(),
            by_vid_pid: HashMap::new(),
            by_id: HashMap::new(),
            device_db: None,
        };
        assert(r.registered() =~= Seq::<ProfileView>::empty());
        r
    }

    /// A registry with the builtin profiles, and with the device database if it could be
    /// loaded. `key_names` are the names that the builtin profiles give to positions.
    pub fn with_builtins(key_names: &Vec<String>, database: Result<DeviceDatabase, String>) -> (r: Self)
        ensures
            r.wf(),
            r.registered() == builtins(name_views(key_names@)),
            r.database() == (match database {
                Ok(db) => Some(db),
                Err(_) => None,
            }),
    {
        let mut registry: ProfileRegistry = ProfileRegistry::new();
        registry.load_builtins(key_names);
        registry.load_device_database(database);
        assert(registry.registered() =~= builtins(name_views(key_names@)));
        registry
    }

    /// Register the builtin profiles: one keyboard, three transports, one device ID.
    pub fn load_builtins(&mut self, key_names: &Vec<String>)
        requires
            old(self).wf(),
        ensures
            final(self).wf(),
            final(self).registered() == old(self).registered() + builtins(name_views(key_names@)),
            final(self).database() == old(self).database(),
    {
        self.register(
            build_m1_v5_he(M1_V5_HE_WIRELESS_PID, "MonsGeek M1 V5 HE (Wireless)", key_names),
        );
        self.register(
            build_m1_v5_he(M1_V5_HE_DONGLE_PID, "MonsGeek M1 V5 HE (Dongle)", key_names),
        );
        self.register(build_m1_v5_he(M1_V5_HE_WIRED_PID, "MonsGeek M1 V5 HE", key_names));
        assert(self.registered() =~= old(self).registered() + builtins(name_views(key_names@)));
    }

    /// Take a device database that was loaded. If that failed, the one that is there
    /// stays.
    pub fn load_device_database(&mut self, database: Result<DeviceDatabase, String>)
        requires
            old(self).wf(),
        ensures
            final(self).wf(),
            final(self).registered() == old(self).registered(),
            final(self).database() == (match database {
                Ok(db) => Some(db),
                Err(_) => old(self).database(),
            }),
    {
        if let Ok(db) = database {
            self.device_db = Some(db);
        }
    }

    /// Register a profile.
    pub fn register(&mut self, profile: DeviceProfile)
        requires
            old(self).wf(),
        ensures
            final(self).wf(),
            final(self).registered() == old(self).registered().push(profile@),
            final(self).database() == old(self).database(),
            final(self).id_profile(profile.id) == Some(profile@),
            final(self).usb_profile(profile.vid, profile.pid) == (match old(self).usb_profile(
                profile.vid,
                profile.pid,
            ) {
                Some(first) => Some(first),
                None => Some(profile@),
            }),
            forall|id: u32|
                id != profile.id ==> #[trigger] final(self).id_profile(id) == old(self).id_profile(
                    id,
                ),
            forall|vid: u16, pid: u16|
                vid != profile.vid || pid != profile.pid ==> #[trigger] final(self).usb_profile(
                    vid,
                    pid,
                ) == old(self).usb_profile(vid, pid),
    {
        let key: u32 = make_usb_key(profile.vid, profile.pid);
        let id: u32 = profile.id;
        let at: usize = self.profiles.len();
        let ghost was = self.profiles@;
        let mut list: Vec<usize> = match self.by_vid_pid.remove(&key) {
            Some(list) => list,
            None => Vec::new(),
        };
        assert(list@ =~= places(was, key));
        list.push(at);
        self.by_vid_pid.insert(key, list);
        self.by_id.insert(id, at);
        self.profiles.push(profile);
        assert(self.profiles@.drop_last() =~= was);
        assert(self.profiles.len() <= usize::MAX);
        assert(self.registered() =~= old(self).registered().push(profile@));
        proof {
            assert(self.registered().drop_last() =~= old(self).registered());
        }
        assert forall|k: u32| #[trigger]
            self.by_vid_pid@.contains_key(k) == (places(self.profiles@, k).len() > 0) by {
            assert(old(self).by_vid_pid@.contains_key(k) == (places(was, k).len() > 0));
        }
        assert forall|k: u32| #[trigger]
            self.by_vid_pid@.contains_key(k) implies self.by_vid_pid@[k]@ == places(
            self.profiles@,
            k,
        ) by {
            if k != key {
                assert(old(self).by_vid_pid@.contains_key(k));
            }
        }
        assert forall|k: u32| #[trigger]
            self.by_id@.contains_key(k) == (last_place(self.profiles@, k) is Some) by {
            assert(old(self).by_id@.contains_key(k) == (last_place(was, k) is Some));
        }
        assert forall|k: u32| #[trigger]
            self.by_id@.contains_key(k) implies last_place(self.profiles@, k) == Some(
            self.by_id@[k],
        ) by {
            if k != id {
                assert(old(self).by_id@.contains_key(k));
            }
        }
    }

    /// The first profile with USB IDs.
    ///
    /// USB IDs are **not unique** across products, so this may be another board's
    /// profile. It serves [`resolve_matrix_key_names`](Self::resolve_matrix_key_names) as
    /// a last resort.
    pub fn find_by_vid_pid(&self, vid: u16, pid: u16) -> (r: Option<&DeviceProfile>)
        requires
            self.wf(),
        ensures
            match r {
                Some(p) => self.usb_profile(vid, pid) == Some(p@),
                None => self.usb_profile(vid, pid) is None,
            },
    {
        let key: u32 = make_usb_key(vid, pid);
        proof {
            lemma_places(self.profiles@, key);
            lemma_first_profile(self.profiles@, vid, pid);
        }
        match self.by_vid_pid.get(&key) {
            Some(list) => {
                assert(self.by_vid_pid@.contains_key(key));
                if list.len() > 0 {
                    Some(&self.profiles[list[0]])
                } else {
                    None
                }
            },
            None => {
                assert(!self.by_vid_pid@.contains_key(key));
                None
            },
        }
    }

    /// The profile that a firmware device ID stands for.
    pub fn find_by_id(&self, id: u32) -> (r: Option<&DeviceProfile>)
        requires
            self.wf(),
        ensures
            match r {
                Some(p) => self.id_profile(id) == Some(p@),
                None => self.id_profile(id) is None,
            },
    {
        proof {
            lemma_last_profile(self.profiles@, id);
        }
        match self.by_id.get(&id) {
            Some(at) => {
                assert(self.by_id@.contains_key(id));
                Some(&self.profiles[*at])
            },
            None => {
                assert(!self.by_id@.contains_key(id));
                None
            },
        }
    }

    /// Whether USB IDs are registered.
    pub fn has_vid_pid(&self, vid: u16, pid: u16) -> (r: bool)
        requires
            self.wf(),
        ensures
            r == (self.usb_profile(vid, pid) is Some),
    {
        self.find_by_vid_pid(vid, pid).is_some()
    }

    /// All registered USB IDs, each once, in no particular order.
    pub fn all_vid_pids(&self) -> (r: Vec<(u16, u16)>)
        requires
            self.wf(),
        ensures
            r@.no_duplicates(),
            forall|vid: u16, pid: u16| #[trigger]
                r@.contains((vid, pid)) == (self.usb_profile(vid, pid) is Some),
    {
        let keys: Vec<u32> = keys_of(&self.by_vid_pid);
        let mut out: Vec<(u16, u16)> = Vec::new();
        let mut i: usize = 0;
        while i < keys.len()
            invariant
                i <= keys@.len(),
                out@.len() == i,
                forall|k: int|
                    0 <= k < i ==> usb_key((#[trigger] out@[k]).0, out@[k].1) == keys@[k],
            decreases keys@.len() - i,
        {
            let key: u32 = keys[i];
            let vid: u16 = (key / 0x10000) as u16;
            let pid: u16 = (key % 0x10000) as u16;
            assert(usb_key(vid, pid) == key);
            out.push((vid, pid));
            i += 1;
        }
        proof {
            assert forall|a: int, b: int| 0 <= a < b < out@.len() implies out@[a] != out@[b] by {
                assert(keys@[a] != keys@[b]);
            }
            assert forall|vid: u16, pid: u16| #[trigger]
                out@.contains((vid, pid)) == (self.usb_profile(vid, pid) is Some) by {
                let key = usb_key(vid, pid);
                lemma_first_profile(self.profiles@, vid, pid);
                assert(self.by_vid_pid@.contains_key(key) == (places(self.profiles@, key).len()
                    > 0));
                assert(keys@.to_set().contains(key) == keys@.contains(key));
                if out@.contains((vid, pid)) {
                    let k = choose|k: int| 0 <= k < out@.len() && out@[k] == (vid, pid);
                    assert(keys@[k] == key);
                    assert(keys@.contains(key));
                }
                if keys@.contains(key) {
                    let k = choose|k: int| 0 <= k < keys@.len() && keys@[k] == key;
                    lemma_usb_key(vid, pid);
                    lemma_usb_key(out@[k].0, out@[k].1);
                    assert(out@[k] == (vid, pid));
                }
            }
        }
        out
    }

    /// All registered profiles, those included that share a device ID.
    pub fn all_profiles(&self) -> (r: Vec<DeviceProfile>)
        requires
            self.wf(),
        ensures
            r@.map_values(|p: DeviceProfile| p@).to_multiset() == self.registered().to_multiset(),
    {
        let mut out: Vec<DeviceProfile> = Vec::new();
        let mut i: usize = 0;
        while i < self.profiles.len()
            invariant
                i <= self.profiles@.len(),
                out@.len() == i,
                forall|k: int| 0 <= k < i ==> (#[trigger] out@[k])@ == self.profiles@[k]@,
            decreases self.profiles@.len() - i,
        {
            out.push(self.profiles[i].copy());
            i += 1;
        }
        assert(out@.map_values(|p: DeviceProfile| p@) =~= self.registered());
        out
    }

    /// Number of registered profiles.
    pub fn len(&self) -> (r: usize)
        requires
            self.wf(),
        ensures
            r == self.registered().len(),
    {
        self.profiles.len()
    }

    /// Whether nothing is registered.
    pub fn is_empty(&self) -> (r: bool)
        requires
            self.wf(),
        ensures
            r == (self.registered().len() == 0),
    {
        self.profiles.len() == 0
    }
}

/// The first profile with USB IDs.
pub open spec fn first_profile(profiles: Seq<ProfileView>, vid: u16, pid: u16) -> Option<ProfileView>
    decreases profiles.len(),
{
    if profiles.len() == 0 {
        None
    } else {
        match first_profile(profiles.drop_last(), vid, pid) {
            Some(p) => Some(p),
            None => if profiles.last().vid == vid && profiles.last().pid == pid {
                Some(profiles.last())
            } else {
                None
            },
        }
    }
}

/// The last profile with a device ID.
pub open spec fn last_profile(profiles: Seq<ProfileView>, id: u32) -> Option<ProfileView>
    decreases profiles.len(),
{
    if profiles.len() == 0 {
        None
    } else if profiles.last().id == id {
        Some(profiles.last())
    } else {
        last_profile(profiles.drop_last(), id)
    }
}

/// The first profile with USB IDs stands at the first of their places.
proof fn lemma_first_profile(profiles: Seq<DeviceProfile>, vid: u16, pid: u16)
    requires
        profiles.len() <= usize::MAX,
    ensures
        ({
            let views = profiles.map_values(|p: DeviceProfile| p@);
            let at = places(profiles, usb_key(vid, pid));
            match first_profile(views, vid, pid) {
                Some(p) => at.len() > 0 && at[0] < profiles.len() && profiles[at[0] as int]@ == p,
                None => at.len() == 0,
            }
        }),
    decreases profiles.len(),
{
    if profiles.len() > 0 {
        let views = profiles.map_values(|p: DeviceProfile| p@);
        let before = profiles.drop_last();
        assert(views.drop_last() =~= before.map_values(|p: DeviceProfile| p@));
        lemma_first_profile(before, vid, pid);
        lemma_usb_key(vid, pid);
        lemma_usb_key(profiles.last().vid, profiles.last().pid);
        let at = places(before, usb_key(vid, pid));
        if at.len() > 0 {
            assert(before[at[0] as int] == profiles[at[0] as int]);
        }
    }
}

/// The last profile with a device ID stands at its last place.
proof fn lemma_last_profile(profiles: Seq<DeviceProfile>, id: u32)
    requires
        profiles.len() <= usize::MAX,
    ensures
        ({
            let views = profiles.map_values(|p: DeviceProfile| p@);
            match last_profile(views, id) {
                Some(p) => last_place(profiles, id) matches Some(at) && at < profiles.len()
                    && profiles[at as int]@ == p && p.id == id,
                None => last_place(profiles, id) is None,
            }
        }),
    decreases profiles.len(),
{
    if profiles.len() > 0 && profiles.last().id != id {
        let views = profiles.map_values(|p: DeviceProfile| p@);
        let before = profiles.drop_last();
        assert(views.drop_last() =~= before.map_values(|p: DeviceProfile| p@));
        lemma_last_profile(before, id);
        if let Some(at) = last_place(before, id) {
            assert(before[at as int] == profiles[at as int]);
        }
    }
}

/// The keys of a map, each once, in no particular order.
fn keys_of<V>(m: &HashMap<u32, V>) -> (r: Vec<u32>)
    ensures
        r@.no_duplicates(),
        r@.to_set() == m@.dom(),
{
    let mut out: Vec<u32> = Vec::new();
    for key in it: m.keys()
        invariant
            out@ == it.seq().unref().take(it.index()),
    {
        out.push(*key);
    }
    let ghost all = m.keys().remaining();
    assert(out@ =~= all.unref());
    out
}

/// What is found in the database, if there is one.
pub open spec fn in_database<T>(
    database: Option<DeviceDatabase>,
    f: spec_fn(DeviceDatabase) -> Option<T>,
) -> Option<T> {
    match database {
        Some(db) => f(db),
        None => None,
    }
}

impl ProfileRegistry {
    /// The first product with USB IDs. Several products may share them; prefer
    /// [`get_device_info_by_id`](Self::get_device_info_by_id) where the ID is known.
    pub fn get_device_info(&self, vid: u16, pid: u16) -> (r: Option<&DeviceDefinition>)
        ensures
            pointee(r) == in_database(self.database(), |db: DeviceDatabase| db.by_usb(vid, pid)),
    {
        match &self.device_db {
            Some(db) => db.find_by_vid_pid(vid, pid),
            None => None,
        }
    }

    /// The product with a firmware device ID, `None` for the few IDs that several products
    /// share.
    pub fn get_device_info_by_id(&self, device_id: i32) -> (r: Option<&DeviceDefinition>)
        ensures
            pointee(r) == in_database(self.database(), |db: DeviceDatabase| db.by_id(device_id)),
    {
        match &self.device_db {
            Some(db) => db.find_by_id(device_id),
            None => None,
        }
    }

    /// The product with a firmware device ID; among several, the one with the USB IDs it
    /// was reached through.
    pub fn get_device_info_by_id_and_usb(&self, device_id: i32, vid: u16, pid: u16) -> (r: Option<
        &DeviceDefinition,
    >)
        ensures
            pointee(r) == in_database(
                self.database(),
                |db: DeviceDatabase| db.by_id_and_usb(device_id, vid, pid),
            ),
    {
        match &self.device_db {
            Some(db) => db.find_by_id_and_usb(device_id, vid, pid),
            None => None,
        }
    }

    /// The product with USB IDs, preferably one of a company.
    pub fn get_device_info_for_company(&self, vid: u16, pid: u16, company: &str) -> (r: Option<
        &DeviceDefinition,
    >)
        ensures
            pointee(r) == in_database(
                self.database(),
                |db: DeviceDatabase| db.by_usb_and_company(vid, pid, company@),
            ),
    {
        match &self.device_db {
            Some(db) => db.find_by_vid_pid_company(vid, pid, company),
            None => None,
        }
    }

    /// Whether a product has magnetic switches; an unknown one has none.
    pub fn device_has_magnetism(&self, vid: u16, pid: u16) -> (r: bool)
        ensures
            r == (match in_database(
                self.database(),
                |db: DeviceDatabase| db.by_usb(vid, pid),
            ) {
                Some(d) => d.magnetism,
                None => false,
            }),
    {
        match self.get_device_info(vid, pid) {
            Some(d) => d.magnetism,
            None => false,
        }
    }

    /// The key count of a product, where known.
    pub fn device_key_count(&self, vid: u16, pid: u16) -> (r: Option<u8>)
        ensures
            r == (match in_database(
                self.database(),
                |db: DeviceDatabase| db.by_usb(vid, pid),
            ) {
                Some(d) => d.key_count,
                None => None,
            }),
    {
        match self.get_device_info(vid, pid) {
            Some(d) => d.key_count,
            None => None,
        }
    }

    /// The matrix of a device.
    pub fn get_device_matrix(&self, vid: u16, pid: u16, device_id: i32) -> (r: Option<&DeviceMatrix>)
        ensures
            pointee(r) == self.matrix_of(vid, pid, device_id),
    {
        match &self.device_db {
            Some(db) => db.get_matrix(vid, pid, device_id),
            None => None,
        }
    }

    /// Whether there is a device database.
    pub fn has_device_database(&self) -> (r: bool)
        ensures
            r == (self.database() is Some),
    {
        self.device_db.is_some()
    }

    /// Number of products and version of the device database.
    pub fn device_database_stats(&self) -> (r: Option<(usize, u32)>)
        ensures
            match r {
                Some(stats) => self.database() matches Some(db) && stats.0 == db.devices@.len()
                    && stats.1 == db.version,
                None => self.database() is None,
            },
    {
        match &self.device_db {
            Some(db) => Some((db.len(), db.version())),
            None => None,
        }
    }

    /// The key names of a connected device, most authoritative source first:
    ///
    /// 1. a profile matched by firmware **device ID**, with any position that it leaves
    ///    unnamed filled from the matrix,
    /// 2. the matrix of the device ID,
    /// 3. a profile matched only by **USB IDs**, as a last resort.
    ///
    /// The last must never come before the matrix: several products share USB IDs, and
    /// matching on them alone would give one board another's layout.
    pub fn resolve_matrix_key_names(&self, device_id: Option<i32>, vid: u16, pid: u16) -> (r: Option<
        Vec<String>,
    >)
        requires
            self.wf(),
        ensures
            match r {
                Some(names) => Some(name_views(names@)),
                None => None,
            } == resolved_names(
                match device_id {
                    Some(id) => self.id_profile(id as u32),
                    None => None,
                },
                match device_id {
                    Some(id) => self.matrix_of(vid, pid, id),
                    None => None,
                },
                self.usb_profile(vid, pid),
            ),
    {
        let matrix: Option<&DeviceMatrix> = match device_id {
            Some(id) => self.get_device_matrix(vid, pid, id),
            None => None,
        };
        let curated: Option<&DeviceProfile> = match device_id {
            Some(id) => self.find_by_id(id as u32),
            None => None,
        };
        if let Some(p) = curated {
            let names: Vec<String> = filled_names(p, matrix);
            return Some(names);
        }
        if let Some(m) = matrix {
            let n: usize = m.matrix_size();
            let mut names: Vec<String> = Vec::new();
            let mut i: usize = 0;
            while i < n
                invariant
                    i <= n == m.key_names@.len(),
                    matrix == Some(m),
                    names@.len() == i,
                    forall|k: int|
                        0 <= k < i ==> (#[trigger] names@[k])@ == matrix_name(pointee(matrix), k),
                decreases n - i,
            {
                names.push(name_in(matrix, i));
                i += 1;
            }
            assert(name_views(names@) =~= Seq::new(
                m.key_names@.len(),
                |i: int| matrix_name(pointee(matrix), i),
            ));
            return Some(names);
        }
        match self.find_by_vid_pid(vid, pid) {
            Some(p) => Some(copy_names(&p.key_names)),
            None => None,
        }
    }

    /// Register a profile that was read from a file.
    pub fn load_from_file(&mut self, parsed: Result<DeviceProfile, String>) -> (r: Result<(), String>)
        requires
            old(self).wf(),
        ensures
            final(self).wf(),
            final(self).database() == old(self).database(),
            match parsed {
                Ok(p) => r is Ok && final(self).registered() == old(self).registered().push(p@),
                Err(e) => r == Err::<(), String>(e) && final(self).registered() == old(
                    self,
                ).registered(),
            },
    {
        match parsed {
            Ok(p) => {
                self.register(p);
                Ok(())
            },
            Err(e) => Err(e),
        }
    }

    /// Register the profiles that were read from a directory, and count them. What could
    /// not be read is left out; `is_dir` says whether there is a directory at all.
    pub fn load_from_directory(
        &mut self,
        dir: &str,
        is_dir: bool,
        parsed: Vec<Result<DeviceProfile, String>>,
    ) -> (r: Result<usize, String>)
        requires
            old(self).wf(),
        ensures
            final(self).wf(),
            final(self).database() == old(self).database(),
            !is_dir ==> (r matches Err(e) && e@ == dir@ + " is not a directory"@)
                && final(self).registered() == old(self).registered(),
            is_dir ==> (r matches Ok(n) && n == read_profiles(parsed@).len())
                && final(self).registered() == old(self).registered() + read_profiles(parsed@),
    {
        if !is_dir {
            let mut e: String = dir.to_owned();
            e.append(" is not a directory");
            return Err(e);
        }
        let mut rest: Vec<Result<DeviceProfile, String>> = parsed;
        let n: usize = rest.len();
        let mut count: usize = 0;
        let mut i: usize = 0;
        let ghost was = self.registered();
        assert(rest@.skip(0) =~= rest@);
        assert(parsed@.take(0) =~= Seq::<Result<DeviceProfile, String>>::empty());
        assert(self.registered() =~= was + read_profiles(parsed@.take(0)));
        while i < n
            invariant
                n == parsed@.len(),
                i <= n,
                rest@ == parsed@.skip(i as int),
                self.wf(),
                self.database() == old(self).database(),
                count == read_profiles(parsed@.take(i as int)).len(),
                count <= i,
                self.registered() == was + read_profiles(parsed@.take(i as int)),
            decreases n - i,
        {
            let file: Result<DeviceProfile, String> = rest.remove(0);
            assert(file == parsed@[i as int]);
            assert(rest@ =~= parsed@.skip(i + 1));
            assert(parsed@.take(i + 1).drop_last() =~= parsed@.take(i as int));
            match self.load_from_file(file) {
                Ok(()) => {
                    count += 1;
                },
                Err(_) => {},
            }
            i += 1;
            assert(self.registered() =~= was + read_profiles(parsed@.take(i as int)));
        }
        assert(parsed@.take(i as int) =~= parsed@);
        Ok(count)
    }
}

/// The profiles that could be read.
pub open spec fn read_profiles(parsed: Seq<Result<DeviceProfile, String>>) -> Seq<ProfileView>
    decreases parsed.len(),
{
    if parsed.len() == 0 {
        Seq::empty()
    } else {
        match parsed.last() {
            Ok(p) => read_profiles(parsed.drop_last()).push(p@),
            Err(_) => read_profiles(parsed.drop_last()),
        }
    }
}

/// The name of a position in a matrix, empty where there is none.
fn name_in(matrix: Option<&DeviceMatrix>, i: usize) -> (r: String)
    ensures
        r@ == matrix_name(pointee(matrix), i as int),
{
    match matrix {
        Some(m) => match m.key_name(i) {
            Some(n) => n.to_owned(),
            None => "".to_owned(),
        },
        None => "".to_owned(),
    }
}

/// The names of a profile, with its gaps filled from a matrix.
fn filled_names(p: &DeviceProfile, matrix: Option<&DeviceMatrix>) -> (r: Vec<String>)
    ensures
        Some(name_views(r@)) == resolved_names(Some(p@), pointee(matrix), None),
{
    let own: usize = p.key_names.len();
    let extra: usize = match matrix {
        Some(m) => m.matrix_size(),
        None => 0,
    };
    let n: usize = if extra > own {
        extra
    } else {
        own
    };
    let ghost expected = resolved_names(Some(p@), pointee(matrix), None)->0;
    let mut names: Vec<String> = Vec::new();
    let mut i: usize = 0;
    while i < n
        invariant
            i <= n == expected.len(),
            own == p.key_names@.len(),
            expected == resolved_names(Some(p@), pointee(matrix), None)->0,
            names@.len() == i,
            forall|k: int| 0 <= k < i ==> (#[trigger] names@[k])@ == expected[k],
        decreases n - i,
    {
        assert(i < own ==> p@.key_names[i as int] == p.key_names@[i as int]@);
        if i < own && p.key_names[i].as_str().unicode_len() > 0 {
            names.push(p.key_names[i].clone());
        } else {
            names.push(name_in(matrix, i));
        }
        i += 1;
    }
    assert(name_views(names@) =~= expected);
    names
}

/// The builtin profiles answer to their USB IDs, and the wired one to the device ID.
pub proof fn wired_profile_wins_the_device_id(key_names: Seq<Seq<char>>)
    ensures
        last_profile(builtins(key_names), M1_V5_HE_ID) == Some(builtins(key_names)[2]),
        builtins(key_names)[2].pid == M1_V5_HE_WIRED_PID,
        first_profile(builtins(key_names), M1_V5_HE_VID, M1_V5_HE_WIRELESS_PID) == Some(
            builtins(key_names)[0],
        ),
        first_profile(builtins(key_names), M1_V5_HE_VID, M1_V5_HE_DONGLE_PID) == Some(
            builtins(key_names)[1],
        ),
        first_profile(builtins(key_names), M1_V5_HE_VID, M1_V5_HE_WIRED_PID) == Some(
            builtins(key_names)[2],
        ),
{
    reveal_with_fuel(first_profile, 4);
    let b = builtins(key_names);
    assert(b.drop_last() =~= seq![b[0], b[1]]);
    assert(b.drop_last().drop_last() =~= seq![b[0]]);
}

/// What registering a profile does to the lookups: its device ID stands for it from now
/// on, and so do its USB IDs unless they were registered before; every other device ID
/// and every other USB IDs give what they gave before, and so does the database.
pub proof fn registration_order_decides(
    before: ProfileRegistry,
    after: ProfileRegistry,
    new: ProfileView,
    id: u32,
    vid: u16,
    pid: u16,
)
    requires
        after.registered() == before.registered().push(new),
        after.database() == before.database(),
    ensures
        after.id_profile(new.id) == Some(new),
        after.usb_profile(new.vid, new.pid) is Some,
        before.usb_profile(new.vid, new.pid) is None ==> after.usb_profile(new.vid, new.pid)
            == Some(new),
        before.usb_profile(new.vid, new.pid) is Some ==> after.usb_profile(new.vid, new.pid)
            == before.usb_profile(new.vid, new.pid),
        id != new.id ==> after.id_profile(id) == before.id_profile(id),
        vid != new.vid || pid != new.pid ==> after.usb_profile(vid, pid) == before.usb_profile(
            vid,
            pid,
        ),
        forall|device_id: i32| #[trigger]
            after.matrix_of(vid, pid, device_id) == before.matrix_of(vid, pid, device_id),
{
    assert(after.registered().drop_last() =~= before.registered());
}

} // verus!
