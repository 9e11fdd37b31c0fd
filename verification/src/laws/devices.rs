//! Which device is meant, and what is known of it.

use crate::commands::CmdCtx;
use crate::connect::{
    device_title, open_for_display, open_keyboard, resolve_polling_rate, ConnectedDevice,
    DeviceFacts,
};
use crate::depth::TransportType;
use crate::device_db::{
    count_id, first_device, first_matrix, pointee, DeviceDatabase, DeviceDefinition, DeviceMatrix,
    PollingRateSupport,
};
use crate::error::KeyboardError;
use crate::exchange::Reply;
use crate::keyboard::KeyboardInterface;
use crate::laws::text::lemma_dec;
use crate::protocol::Profile;
use crate::registry::{
    is_profile_file, last_dot, name_views, wired_profile_wins_the_device_id, DeviceProfile,
    ProfileRegistry,
};
use crate::select::{
    hits, index_is, path_holds, path_starts, pick_device, query_device_id, resolve_device,
    transport_is, DeviceLabel, Refusal,
};
use crate::text::{dec, is_digit, parsed_number};
use vstd::prelude::*;

verus! {

/// Whether a product is the first of a list for which `f` holds.
pub open spec fn first_such(
    devices: Seq<DeviceDefinition>,
    f: spec_fn(DeviceDefinition) -> bool,
    d: DeviceDefinition,
) -> bool {
    &&& f(d)
    &&& exists|i: int|
        0 <= i < devices.len() && #[trigger] devices[i] == d && forall|j: int|
            0 <= j < i ==> !f(#[trigger] devices[j])
}

/// What is found first.
proof fn lemma_first_device(devices: Seq<DeviceDefinition>, f: spec_fn(DeviceDefinition) -> bool)
    ensures
        match first_device(devices, f) {
            Some(d) => first_such(devices, f, d),
            None => forall|i: int| 0 <= i < devices.len() ==> !f(#[trigger] devices[i]),
        },
    decreases devices.len(),
{
    if devices.len() > 0 {
        if f(devices[0]) {
            assert(devices[0] == devices[0]);
        } else {
            let rest = devices.drop_first();
            lemma_first_device(rest, f);
            match first_device(devices, f) {
                Some(d) => {
                    let i = choose|i: int|
                        0 <= i < rest.len() && #[trigger] rest[i] == d && forall|j: int|
                            0 <= j < i ==> !f(#[trigger] rest[j]);
                    assert(devices[i + 1] == d);
                    assert forall|j: int| 0 <= j < i + 1 implies !f(#[trigger] devices[j]) by {
                        if j > 0 {
                            assert(rest[j - 1] == devices[j]);
                        }
                    }
                },
                None => {
                    assert forall|i: int| 0 <= i < devices.len() implies !f(
                        #[trigger] devices[i],
                    ) by {
                        if i > 0 {
                            assert(rest[i - 1] == devices[i]);
                        }
                    }
                },
            }
        }
    }
}

/// How often an id occurs.
proof fn lemma_count(devices: Seq<DeviceDefinition>, id: i32, i: int)
    requires
        0 <= i < devices.len(),
        devices[i].id == id,
    ensures
        count_id(devices, id) >= 1,
        (forall|j: int| 0 <= j < devices.len() && j != i ==> (#[trigger] devices[j]).id != id)
            ==> count_id(devices, id) == 1,
        (exists|j: int| 0 <= j < devices.len() && j != i && (#[trigger] devices[j]).id == id)
            ==> count_id(devices, id) >= 2,
    decreases devices.len(),
{
    let rest = devices.drop_first();
    if i == 0 {
        if exists|j: int| 0 <= j < devices.len() && j != i && (#[trigger] devices[j]).id == id {
            let j = choose|j: int|
                0 <= j < devices.len() && j != i && (#[trigger] devices[j]).id == id;
            assert(rest[j - 1] == devices[j]);
            lemma_count(rest, id, j - 1);
        } else {
            assert forall|j: int| 0 <= j < rest.len() implies (#[trigger] rest[j]).id != id by {
                assert(rest[j] == devices[j + 1]);
            }
            lemma_no_count(rest, id);
        }
    } else {
        assert(rest[i - 1] == devices[i]);
        lemma_count(rest, id, i - 1);
        if exists|j: int| 0 <= j < devices.len() && j != i && (#[trigger] devices[j]).id == id {
            let j = choose|j: int|
                0 <= j < devices.len() && j != i && (#[trigger] devices[j]).id == id;
            if j > 0 {
                assert(rest[j - 1] == devices[j]);
            }
        } else {
            assert(devices[0].id != id);
            assert forall|j: int| 0 <= j < rest.len() && j != i - 1 implies (
            #[trigger] rest[j]).id != id by {
                assert(rest[j] == devices[j + 1]);
            }
        }
    }
}

/// An id that does not occur is counted zero times.
proof fn lemma_no_count(devices: Seq<DeviceDefinition>, id: i32)
    requires
        forall|j: int| 0 <= j < devices.len() ==> (#[trigger] devices[j]).id != id,
    ensures
        count_id(devices, id) == 0,
    decreases devices.len(),
{
    if devices.len() > 0 {
        let rest = devices.drop_first();
        assert(devices[0].id != id);
        assert forall|j: int| 0 <= j < rest.len() implies (#[trigger] rest[j]).id != id by {
            assert(rest[j] == devices[j + 1]);
        }
        lemma_no_count(rest, id);
    }
}

/// A product is found by its USB IDs, the first of those that share them.
pub proof fn products_are_found_by_usb_ids(
    db: &DeviceDatabase,
    vid: u16,
    pid: u16,
    r: Option<&DeviceDefinition>,
)
    requires
        call_ensures(DeviceDatabase::find_by_vid_pid, (db, vid, pid), r),
    ensures
        r is Some ==> first_such(
            db.devices@,
            |d: DeviceDefinition| d.vid == vid && d.pid == pid,
            *r->0,
        ),
        r is None ==> forall|i: int|
            0 <= i < db.devices@.len() ==> (#[trigger] db.devices@[i]).vid != vid
                || db.devices@[i].pid != pid,
{
    let f = |d: DeviceDefinition| d.vid == vid && d.pid == pid;
    lemma_first_device(db.devices@, f);
    if r is None {
        assert forall|i: int| 0 <= i < db.devices@.len() implies (#[trigger] db.devices@[i]).vid
            != vid || db.devices@[i].pid != pid by {
            assert(!f(db.devices@[i]));
        }
    }
}

/// A product is found by its firmware id if no other has it, and else not at all.
pub proof fn products_are_found_by_their_own_id(
    db: &DeviceDatabase,
    id: i32,
    i: int,
    j: int,
    r: Option<&DeviceDefinition>,
)
    requires
        call_ensures(DeviceDatabase::find_by_id, (db, id), r),
        0 <= i < db.devices@.len(),
        0 <= j < db.devices@.len(),
        i != j,
    ensures
        db.devices@[i].id == id && db.devices@[j].id == id ==> r is None,
        db.devices@[i].id == id && (forall|k: int|
            0 <= k < db.devices@.len() && k != i ==> (#[trigger] db.devices@[k]).id != id)
            ==> pointee(r) == Some(db.devices@[i]),
        (forall|k: int| 0 <= k < db.devices@.len() ==> (#[trigger] db.devices@[k]).id != id)
            ==> r is None,
        r is Some ==> r->0.id == id,
{
    let devices = db.devices@;
    let f = |d: DeviceDefinition| d.id == id;
    lemma_first_device(devices, f);
    if devices[i].id == id {
        lemma_count(devices, id, i);
        if devices[j].id == id {
            assert(exists|j: int|
                0 <= j < devices.len() && j != i && (#[trigger] devices[j]).id == id);
        }
        if forall|k: int| 0 <= k < devices.len() && k != i ==> (#[trigger] devices[k]).id != id {
            assert(f(devices[i]));
            let d = first_device(devices, f)->0;
            let k = choose|k: int|
                0 <= k < devices.len() && #[trigger] devices[k] == d && forall|m: int|
                    0 <= m < k ==> !f(#[trigger] devices[m]);
            assert(f(d));
            assert(k == i);
        }
    }
    if forall|k: int| 0 <= k < devices.len() ==> (#[trigger] devices[k]).id != id {
        lemma_no_count(devices, id);
    }
}

/// A firmware id that several products share is decided by the USB IDs, the first with all
/// three; one that a single product has decides alone.
pub proof fn shared_ids_are_decided_by_usb_ids(
    db: &DeviceDatabase,
    id: i32,
    vid: u16,
    pid: u16,
    r: Option<&DeviceDefinition>,
    alone: Option<&DeviceDefinition>,
)
    requires
        call_ensures(DeviceDatabase::find_by_id_and_usb, (db, id, vid, pid), r),
        call_ensures(DeviceDatabase::find_by_id, (db, id), alone),
    ensures
        r is Some ==> r->0.id == id,
        alone is Some ==> pointee(r) == pointee(alone),
        alone is None && r is Some ==> first_such(
            db.devices@,
            |d: DeviceDefinition| d.id == id && d.vid == vid && d.pid == pid,
            *r->0,
        ),
        r is None ==> forall|i: int|
            0 <= i < db.devices@.len() ==> (#[trigger] db.devices@[i]).id != id
                || db.devices@[i].vid != vid || db.devices@[i].pid != pid,
{
    let f = |d: DeviceDefinition| d.id == id && d.vid == vid && d.pid == pid;
    lemma_first_device(db.devices@, f);
    lemma_first_device(db.devices@, |d: DeviceDefinition| d.id == id);
    if r is None {
        assert forall|i: int| 0 <= i < db.devices@.len() implies (#[trigger] db.devices@[i]).id
            != id || db.devices@[i].vid != vid || db.devices@[i].pid != pid by {
            assert(!f(db.devices@[i]));
        }
    }
}

/// Of the products with USB IDs the first of a company goes before the first of any.
pub proof fn companies_go_first(
    db: &DeviceDatabase,
    vid: u16,
    pid: u16,
    company: &str,
    i: int,
    r: Option<&DeviceDefinition>,
    any: Option<&DeviceDefinition>,
)
    requires
        call_ensures(DeviceDatabase::find_by_vid_pid_company, (db, vid, pid, company), r),
        call_ensures(DeviceDatabase::find_by_vid_pid, (db, vid, pid), any),
        0 <= i < db.devices@.len(),
    ensures
        db.devices@[i].vid == vid && db.devices@[i].pid == pid && db.devices@[i].company@
            == company@ ==> r is Some && r->0.company@ == company@,
        r is Some ==> r->0.vid == vid && r->0.pid == pid,
        r is Some && r->0.company@ == company@ ==> first_such(
            db.devices@,
            |d: DeviceDefinition| d.vid == vid && d.pid == pid && d.company@ == company@,
            *r->0,
        ),
        r is Some && r->0.company@ != company@ ==> pointee(r) == pointee(any),
        r is None ==> any is None,
{
    let f = |d: DeviceDefinition| d.vid == vid && d.pid == pid && d.company@ == company@;
    let g = |d: DeviceDefinition| d.vid == vid && d.pid == pid;
    lemma_first_device(db.devices@, f);
    lemma_first_device(db.devices@, g);
    if f(db.devices@[i]) {
        assert(first_device(db.devices@, f) is Some);
    }
    if first_device(db.devices@, f) is None && r is Some && r->0.company@ == company@ {
        let d = *r->0;
        let k = choose|k: int|
            0 <= k < db.devices@.len() && #[trigger] db.devices@[k] == d && forall|m: int|
                0 <= m < k ==> !g(#[trigger] db.devices@[m]);
        assert(g(d));
        assert(f(db.devices@[k]));
    }
}

/// Whether a matrix is the first of a list for a product.
pub open spec fn first_of_product(
    list: Seq<DeviceMatrix>,
    vid: u16,
    pid: u16,
    id: i32,
    m: DeviceMatrix,
) -> bool {
    &&& m.vid == vid && m.pid == pid && m.device_id == id
    &&& exists|i: int|
        0 <= i < list.len() && #[trigger] list[i] == m && forall|j: int|
            0 <= j < i ==> (#[trigger] list[j]).vid != vid || list[j].pid != pid
                || list[j].device_id != id
}

/// The first matrix of a product.
proof fn lemma_first_matrix(list: Seq<DeviceMatrix>, vid: u16, pid: u16, id: i32)
    ensures
        match first_matrix(list, vid, pid, id) {
            Some(m) => first_of_product(list, vid, pid, id, m),
            None => forall|i: int|
                0 <= i < list.len() ==> (#[trigger] list[i]).vid != vid || list[i].pid != pid
                    || list[i].device_id != id,
        },
    decreases list.len(),
{
    if list.len() > 0 {
        let rest = list.drop_first();
        if list[0].vid == vid && list[0].pid == pid && list[0].device_id == id {
        } else {
            lemma_first_matrix(rest, vid, pid, id);
            match first_matrix(list, vid, pid, id) {
                Some(m) => {
                    let i = choose|i: int|
                        0 <= i < rest.len() && #[trigger] rest[i] == m && forall|j: int|
                            0 <= j < i ==> (#[trigger] rest[j]).vid != vid || rest[j].pid != pid
                                || rest[j].device_id != id;
                    assert(list[i + 1] == m);
                    assert forall|j: int| 0 <= j < i + 1 implies (#[trigger] list[j]).vid != vid
                        || list[j].pid != pid || list[j].device_id != id by {
                        if j > 0 {
                            assert(rest[j - 1] == list[j]);
                        }
                    }
                },
                None => {
                    assert forall|i: int| 0 <= i < list.len() implies (#[trigger] list[i]).vid
                        != vid || list[i].pid != pid || list[i].device_id != id by {
                        if i > 0 {
                            assert(rest[i - 1] == list[i]);
                        }
                    }
                },
            }
        }
    }
}

/// A matrix is found by all three ids of its product, and by nothing less.
pub proof fn matrices_are_found_by_three_ids(
    db: &DeviceDatabase,
    vid: u16,
    pid: u16,
    id: i32,
    r: Option<&DeviceMatrix>,
)
    requires
        call_ensures(DeviceDatabase::get_matrix, (db, vid, pid, id), r),
    ensures
        r is Some ==> first_of_product(db.matrices@, vid, pid, id, *r->0),
        r is None ==> forall|i: int|
            0 <= i < db.matrices@.len() ==> (#[trigger] db.matrices@[i]).vid != vid
                || db.matrices@[i].pid != pid || db.matrices@[i].device_id != id,
{
    lemma_first_matrix(db.matrices@, vid, pid, id);
}

/// A position has the name that the matrix gives it; an empty name is none.
pub proof fn positions_are_named_by_the_matrix(
    m: &DeviceMatrix,
    i: usize,
    size: usize,
    r: Option<&str>,
)
    requires
        call_ensures(DeviceMatrix::matrix_size, (m,), size),
        call_ensures(DeviceMatrix::key_name, (m, i), r),
    ensures
        size == m.key_names@.len(),
        r is Some <==> i < size && m.key_names@[i as int]@.len() > 0,
        r is Some ==> r->0@ == m.key_names@[i as int]@,
{
}

/// A registered profile is found by its device id from then on, and by its USB IDs unless
/// another was there first; what other ids find does not change.
pub proof fn registered_profiles_are_found(
    reg: &mut ProfileRegistry,
    p: DeviceProfile,
    after: ProfileRegistry,
    id: u32,
    by_id: Option<&DeviceProfile>,
    by_usb: Option<&DeviceProfile>,
    usb_before: Option<&DeviceProfile>,
    other: Option<&DeviceProfile>,
    other_before: Option<&DeviceProfile>,
    has: bool,
)
    requires
        old(reg).wf(),
        call_ensures(ProfileRegistry::register, (reg, p), ()),
        after == *final(reg),
        call_ensures(ProfileRegistry::find_by_id, (&after, p.id), by_id),
        call_ensures(ProfileRegistry::find_by_vid_pid, (&after, p.vid, p.pid), by_usb),
        call_ensures(ProfileRegistry::find_by_vid_pid, (old(reg), p.vid, p.pid), usb_before),
        call_ensures(ProfileRegistry::has_vid_pid, (&after, p.vid, p.pid), has),
        id != p.id,
        call_ensures(ProfileRegistry::find_by_id, (&after, id), other),
        call_ensures(ProfileRegistry::find_by_id, (old(reg), id), other_before),
    ensures
        by_id is Some && by_id->0@ == p@,
        by_usb is Some && has,
        usb_before is None ==> by_usb->0@ == p@,
        usb_before is Some ==> by_usb->0@ == usb_before->0@,
        other is Some <==> other_before is Some,
        other is Some ==> other->0@ == other_before->0@,
{
}

/// An empty registry finds nothing.
pub proof fn an_empty_registry_finds_nothing(
    reg: ProfileRegistry,
    id: u32,
    vid: u16,
    pid: u16,
    by_id: Option<&DeviceProfile>,
    by_usb: Option<&DeviceProfile>,
    n: usize,
    empty: bool,
    database: bool,
)
    requires
        call_ensures(ProfileRegistry::new, (), reg),
        call_ensures(ProfileRegistry::find_by_id, (&reg, id), by_id),
        call_ensures(ProfileRegistry::find_by_vid_pid, (&reg, vid, pid), by_usb),
        call_ensures(ProfileRegistry::len, (&reg,), n),
        call_ensures(ProfileRegistry::is_empty, (&reg,), empty),
        call_ensures(ProfileRegistry::has_device_database, (&reg,), database),
    ensures
        by_id is None,
        by_usb is None,
        n == 0,
        empty,
        !database,
{
}

/// Each registration adds one profile.
pub proof fn registration_adds_one(
    reg: &mut ProfileRegistry,
    p: DeviceProfile,
    after: ProfileRegistry,
    n: usize,
    m: usize,
)
    requires
        old(reg).wf(),
        call_ensures(ProfileRegistry::register, (reg, p), ()),
        after == *final(reg),
        call_ensures(ProfileRegistry::len, (old(reg),), n),
        call_ensures(ProfileRegistry::len, (&after,), m),
    ensures
        m == n + 1,
        after.database() == old(reg).database(),
{
}

/// The builtin profiles are one keyboard over three transports: the device id means the
/// wired one, and each transport has its own USB IDs.
pub proof fn builtin_profiles_are_found(
    names: &Vec<String>,
    database: Result<DeviceDatabase, String>,
    reg: ProfileRegistry,
    by_id: Option<&DeviceProfile>,
    wired: Option<&DeviceProfile>,
    wireless: Option<&DeviceProfile>,
    dongle: Option<&DeviceProfile>,
    n: usize,
)
    requires
        call_ensures(ProfileRegistry::with_builtins, (names, database), reg),
        call_ensures(ProfileRegistry::find_by_id, (&reg, 2949), by_id),
        call_ensures(ProfileRegistry::find_by_vid_pid, (&reg, 0x3151, 0x5030), wired),
        call_ensures(ProfileRegistry::find_by_vid_pid, (&reg, 0x3151, 0x503A), wireless),
        call_ensures(ProfileRegistry::find_by_vid_pid, (&reg, 0x3151, 0x5038), dongle),
        call_ensures(ProfileRegistry::len, (&reg,), n),
    ensures
        n == 3,
        by_id is Some && wired is Some && wireless is Some && dongle is Some,
        by_id->0@ == wired->0@,
        by_id->0.vid == 0x3151 && by_id->0.pid == 0x5030 && by_id->0.key_count == 82,
        by_id->0.display_name@ == "MonsGeek M1 V5 HE"@,
        wireless->0.id == 2949 && dongle->0.id == 2949,
        name_views(by_id->0.key_names@) == name_views(names@),
        reg.database() == (match database {
            Ok(db) => Some(db),
            Err(_) => None,
        }),
{
    wired_profile_wins_the_device_id(name_views(names@));
    assert(by_id->0@.pid == 0x5030);
}

/// The profiles that could be read from a directory are registered and counted; the others
/// are left out.
pub proof fn readable_profiles_are_registered(
    reg: &mut ProfileRegistry,
    dir: &str,
    p: DeviceProfile,
    e: String,
    parsed: Vec<Result<DeviceProfile, String>>,
    r: Result<usize, String>,
    after: ProfileRegistry,
    found: Option<&DeviceProfile>,
)
    requires
        old(reg).wf(),
        parsed@ == seq![Ok(p), Err(e)] || parsed@ == seq![Err(e), Ok(p)],
        call_ensures(ProfileRegistry::load_from_directory, (reg, dir, true, parsed), r),
        after == *final(reg),
        call_ensures(ProfileRegistry::find_by_id, (&after, p.id), found),
    ensures
        r is Ok && r->Ok_0 == 1,
        after.registered() == old(reg).registered().push(p@),
        found is Some && found->0@ == p@,
{
    reveal_with_fuel(crate::registry::read_profiles, 3);
    assert(parsed@.drop_last() =~= seq![parsed@[0]]);
    assert(parsed@.drop_last().drop_last() =~= Seq::<Result<DeviceProfile, String>>::empty());
    assert(crate::registry::read_profiles(parsed@) =~= seq![p@]);
    assert(old(reg).registered() + seq![p@] =~= old(reg).registered().push(p@));
    assert(old(reg).registered().push(p@).drop_last() =~= old(reg).registered());
}

/// A directory that is none is refused, and a file that could not be read is told; neither
/// registers anything.
pub proof fn unreadable_profiles_are_refused(
    reg: &mut ProfileRegistry,
    other: &mut ProfileRegistry,
    dir: &str,
    parsed: Vec<Result<DeviceProfile, String>>,
    e: String,
    r: Result<usize, String>,
    s: Result<(), String>,
)
    requires
        call_ensures(ProfileRegistry::load_from_directory, (reg, dir, false, parsed), r),
        call_ensures(ProfileRegistry::load_from_file, (other, Err(e)), s),
    ensures
        r is Err && r->Err_0@ == dir@ + " is not a directory"@,
        final(reg).registered() == old(reg).registered(),
        s is Err && s->Err_0 == e,
        final(other).registered() == old(other).registered(),
{
}

/// Files of profiles are those whose name ends in a dot and `json`, with something before.
pub proof fn profile_files_end_in_json(name: &str, stem: Seq<char>, r: bool)
    requires
        call_ensures(is_profile_file, (name,), r),
    ensures
        stem.len() > 0 && name@ == stem + seq!['.', 'j', 's', 'o', 'n'] ==> r,
        r ==> name@.len() > 5 && name@.skip(name@.len() - 5) == seq!['.', 'j', 's', 'o', 'n'],
{
    reveal_strlit("json");
    let tail = seq!['.', 'j', 's', 'o', 'n'];
    if stem.len() > 0 && name@ == stem + tail {
        reveal_with_fuel(last_dot, 6);
        let n = stem.len() as int;
        assert(name@.drop_last() =~= stem + seq!['.', 'j', 's', 'o']);
        assert(name@.drop_last().drop_last() =~= stem + seq!['.', 'j', 's']);
        assert(name@.drop_last().drop_last().drop_last() =~= stem + seq!['.', 'j']);
        assert(name@.drop_last().drop_last().drop_last().drop_last() =~= stem + seq!['.']);
        assert(last_dot(name@) == Some(n));
        assert(name@.skip(n + 1) =~= "json"@);
    }
    if r {
        lemma_last_dot(name@);
        let p = last_dot(name@)->0;
        assert(name@.skip(p + 1).len() == 4);
        assert(name@.skip(p) =~= tail) by {
            assert forall|i: int| 0 <= i < 5 implies name@.skip(p)[i] == tail[i] by {
                if i > 0 {
                    assert(name@.skip(p)[i] == name@.skip(p + 1)[i - 1]);
                }
            }
        }
    }
}

/// There is a dot where the last one is found.
proof fn lemma_last_dot(name: Seq<char>)
    ensures
        last_dot(name) matches Some(p) ==> 0 <= p < name.len() && name[p] == '.',
    decreases name.len(),
{
    if name.len() > 0 {
        lemma_last_dot(name.drop_last());
    }
}

/// The names of a device's positions come from the profile of its device id, whose gaps its
/// matrix fills; without such a profile from the matrix; and only without either from a
/// profile that shares the USB IDs.
pub proof fn names_come_from_the_best_source(
    reg: &ProfileRegistry,
    id: i32,
    vid: u16,
    pid: u16,
    p: Option<&DeviceProfile>,
    m: Option<&DeviceMatrix>,
    u: Option<&DeviceProfile>,
    r: Option<Vec<String>>,
    i: int,
)
    requires
        reg.wf(),
        call_ensures(ProfileRegistry::find_by_id, (reg, id as u32), p),
        call_ensures(ProfileRegistry::get_device_matrix, (reg, vid, pid, id), m),
        call_ensures(ProfileRegistry::find_by_vid_pid, (reg, vid, pid), u),
        call_ensures(ProfileRegistry::resolve_matrix_key_names, (reg, Some(id), vid, pid), r),
        0 <= i,
    ensures
        r is None <==> p is None && m is None && u is None,
        p is Some && i < p->0.key_names@.len() && p->0.key_names@[i]@.len() > 0 ==> i
            < r->0@.len() && r->0@[i]@ == p->0.key_names@[i]@,
        p is Some && (i >= p->0.key_names@.len() || p->0.key_names@[i]@.len() == 0) && m is Some
            && i < m->0.key_names@.len() ==> i < r->0@.len() && r->0@[i]@
            == m->0.key_names@[i]@,
        p is None && m is Some ==> r->0@.len() == m->0.key_names@.len() && (i < r->0@.len()
            ==> r->0@[i]@ == m->0.key_names@[i]@),
        p is None && m is None && u is Some ==> name_views(r->0@) == name_views(u->0.key_names@),
{
    reveal_strlit("");
    if r is Some {
        let names = name_views(r->0@);
        assert(i < names.len() ==> names[i] == r->0@[i]@);
        if p is Some {
            assert(i < p->0.key_names@.len() ==> p->0@.key_names[i] == p->0.key_names@[i]@);
        }
        if m is Some && i < m->0.key_names@.len() && m->0.key_names@[i]@.len() == 0 {
            assert(m->0.key_names@[i]@ =~= ""@);
        }
    }
}

/// Without a device id, only a profile with the USB IDs names the positions.
pub proof fn names_without_an_id_come_from_usb_ids(
    reg: &ProfileRegistry,
    vid: u16,
    pid: u16,
    u: Option<&DeviceProfile>,
    r: Option<Vec<String>>,
)
    requires
        reg.wf(),
        call_ensures(ProfileRegistry::find_by_vid_pid, (reg, vid, pid), u),
        call_ensures(ProfileRegistry::resolve_matrix_key_names, (reg, None, vid, pid), r),
    ensures
        r is Some <==> u is Some,
        r is Some ==> name_views(r->0@) == name_views(u->0.key_names@),
{
}

/// The registry finds products where its database does, and nothing without one.
pub proof fn products_come_from_the_database(
    reg: &ProfileRegistry,
    db: &DeviceDatabase,
    id: i32,
    vid: u16,
    pid: u16,
    company: &str,
    a: Option<&DeviceDefinition>,
    a0: Option<&DeviceDefinition>,
    b: Option<&DeviceDefinition>,
    b0: Option<&DeviceDefinition>,
    c: Option<&DeviceDefinition>,
    c0: Option<&DeviceDefinition>,
    d: Option<&DeviceDefinition>,
    d0: Option<&DeviceDefinition>,
    m: Option<&DeviceMatrix>,
    m0: Option<&DeviceMatrix>,
    magnetic: bool,
    keys: Option<u8>,
)
    requires
        call_ensures(ProfileRegistry::get_device_info, (reg, vid, pid), a),
        call_ensures(DeviceDatabase::find_by_vid_pid, (db, vid, pid), a0),
        call_ensures(ProfileRegistry::get_device_info_by_id, (reg, id), b),
        call_ensures(DeviceDatabase::find_by_id, (db, id), b0),
        call_ensures(ProfileRegistry::get_device_info_by_id_and_usb, (reg, id, vid, pid), c),
        call_ensures(DeviceDatabase::find_by_id_and_usb, (db, id, vid, pid), c0),
        call_ensures(ProfileRegistry::get_device_info_for_company, (reg, vid, pid, company), d),
        call_ensures(DeviceDatabase::find_by_vid_pid_company, (db, vid, pid, company), d0),
        call_ensures(ProfileRegistry::get_device_matrix, (reg, vid, pid, id), m),
        call_ensures(DeviceDatabase::get_matrix, (db, vid, pid, id), m0),
        call_ensures(ProfileRegistry::device_has_magnetism, (reg, vid, pid), magnetic),
        call_ensures(ProfileRegistry::device_key_count, (reg, vid, pid), keys),
    ensures
        reg.database() == Some(*db) ==> pointee(a) == pointee(a0) && pointee(b) == pointee(b0)
            && pointee(c) == pointee(c0) && pointee(d) == pointee(d0) && pointee(m) == pointee(m0),
        reg.database() is None ==> a is None && b is None && c is None && d is None && m is None,
        magnetic == (a is Some && a->0.magnetism),
        keys == (if a is Some {
            a->0.key_count
        } else {
            None
        }),
{
}

/// A polling rate is offered only for a product that is known: by device id first, then by
/// USB IDs. Over Bluetooth it is withdrawn where the product says so.
pub proof fn polling_rates_are_those_of_the_product(
    reg: &ProfileRegistry,
    id: Option<i32>,
    vid: u16,
    pid: u16,
    transport: TransportType,
    by_id: Option<&DeviceDefinition>,
    by_usb: Option<&DeviceDefinition>,
    r: (PollingRateSupport, Vec<u16>),
)
    requires
        id is Some ==> call_ensures(
            ProfileRegistry::get_device_info_by_id_and_usb,
            (reg, id->0, vid, pid),
            by_id,
        ),
        id is None ==> by_id is None,
        call_ensures(ProfileRegistry::get_device_info, (reg, vid, pid), by_usb),
        call_ensures(resolve_polling_rate, (reg, id, vid, pid, transport), r),
    ensures
        by_id is None && by_usb is None ==> r.0 == PollingRateSupport::Unsupported && r.1@.len()
            == 0,
        by_id is Some ==> r.1@ == by_id->0.polling_rates@ && (transport != TransportType::Bluetooth
            ==> r.0 == by_id->0.polling_rate),
        by_id is None && by_usb is Some ==> r.1@ == by_usb->0.polling_rates@ && (transport
            != TransportType::Bluetooth ==> r.0 == by_usb->0.polling_rate),
        transport == TransportType::Bluetooth ==> r.0 != PollingRateSupport::NotOverBluetooth,
        by_id is Some && by_id->0.polling_rate == PollingRateSupport::Supported ==> r.0
            == PollingRateSupport::Supported,
        by_id is Some && by_id->0.polling_rate == PollingRateSupport::NotOverBluetooth && transport
            == TransportType::Bluetooth ==> r.0 == PollingRateSupport::Unsupported,
{
}

/// A device is called what the tables call it, else what it calls itself, else by its USB
/// IDs.
pub proof fn devices_have_a_title(
    model: Option<String>,
    product: Option<String>,
    vid: u16,
    pid: u16,
    r: String,
)
    requires
        call_ensures(device_title, (&model, &product, vid, pid), r),
    ensures
        model is Some ==> r@ == model->0@,
        model is None && product is Some ==> r@ == product->0@,
        model is None && product is None ==> r@ == "Device "@ + crate::text::hex4_lower(vid) + ":"@
            + crate::text::hex4_lower(pid),
{
}

/// A keyboard that is opened for a command works on the profile that was asked for, else on
/// the one that the board tells; without either it is not opened. It knows the matrix of
/// its model and may set the rates of its model.
pub proof fn an_opened_keyboard_is_set_up(
    ctx: &CmdCtx,
    kb: KeyboardInterface,
    reg: &ProfileRegistry,
    id: i32,
    queried: Result<Profile, KeyboardError>,
    entry: Option<&DeviceDefinition>,
    m: Option<&DeviceMatrix>,
    names: Option<Vec<String>>,
    r: Result<KeyboardInterface, String>,
)
    requires
        reg.wf(),
        call_ensures(
            ProfileRegistry::get_device_info_by_id_and_usb,
            (reg, id, kb.device.vid, kb.device.pid),
            entry,
        ),
        call_ensures(
            ProfileRegistry::get_device_matrix,
            (reg, kb.device.vid, kb.device.pid, id),
            m,
        ),
        call_ensures(
            ProfileRegistry::resolve_matrix_key_names,
            (reg, Some(id), kb.device.vid, kb.device.pid),
            names,
        ),
        call_ensures(open_keyboard, (ctx, kb, reg, Some(id), queried), r),
    ensures
        r is Err <==> ctx.profile is None && queried is Err,
        r is Ok && ctx.profile is Some ==> r->Ok_0.active_profile == ctx.profile->0,
        r is Ok && ctx.profile is None ==> r->Ok_0.active_profile == queried->Ok_0,
        r is Ok && entry is Some ==> r->Ok_0.polling_rates@ == entry->0.polling_rates@,
        r is Ok && entry is None ==> r->Ok_0.polling_rates@ == kb.polling_rates@,
        r is Ok && m is Some ==> r->Ok_0.matrix_defaults@ == m->0.matrix@,
        r is Ok && m is None ==> r->Ok_0.matrix_defaults@ == kb.matrix_defaults@,
        r is Ok && names is Some ==> name_views(r->Ok_0.matrix_key_names@) == name_views(
            names->0@,
        ),
        r is Ok && m is Some && m->0.non_analog_positions is Some
            ==> r->Ok_0.non_analog_positions@ == m->0.non_analog_positions->0@,
        r is Ok ==> r->Ok_0.device == kb.device && r->Ok_0.key_count == kb.key_count
            && r->Ok_0.commands == kb.commands && r->Ok_0.has_magnetism == kb.has_magnetism,
{
}

/// A keyboard that is opened for the interface works on the profile that the board tells,
/// the first if it does not, and is described by what the tables and the board say.
pub proof fn a_shown_keyboard_is_described(
    kb: KeyboardInterface,
    reg: &ProfileRegistry,
    id: Option<i32>,
    transport: TransportType,
    facts: &DeviceFacts,
    queried: Result<Profile, KeyboardError>,
    rates: (PollingRateSupport, Vec<u16>),
    r: (KeyboardInterface, ConnectedDevice),
)
    requires
        reg.wf(),
        call_ensures(resolve_polling_rate, (reg, id, kb.device.vid, kb.device.pid, transport),
            rates),
        call_ensures(open_for_display, (kb, reg, id, transport, facts, queried), r),
    ensures
        queried is Ok ==> r.0.active_profile == queried->Ok_0,
        queried is Err ==> r.0.active_profile == Profile::First,
        r.0.device == kb.device && r.0.commands == kb.commands,
        r.1.polling_rate_support == rates.0,
        r.1.polling_rates@ == rates.1@ && r.0.polling_rates@ == rates.1@,
        r.1.key_count == facts.key_count,
        r.1.display_key_count == facts.display_key_count,
        r.1.has_magnetism == facts.has_magnetism,
        r.1.has_sidelight == facts.has_sidelight,
        r.1.is_wireless == kb.device.wireless,
        facts.display_name is Some ==> r.1.name@ == facts.display_name->0@,
        transport == TransportType::Bluetooth ==> r.1.transport_name@ == "bt"@,
{
}

/// A text that fits one device only is hit there only.
proof fn lemma_one_hit(labels: Seq<DeviceLabel>, f: spec_fn(DeviceLabel) -> bool, i: int)
    requires
        0 <= i < labels.len(),
        f(labels[i]),
        forall|j: int| 0 <= j < labels.len() && j != i ==> !f(#[trigger] labels[j]),
    ensures
        hits(labels, f) == seq![i as nat],
    decreases labels.len(),
{
    let before = labels.drop_last();
    if i == labels.len() - 1 {
        assert forall|j: int| 0 <= j < before.len() implies !f(#[trigger] before[j]) by {
            assert(before[j] == labels[j]);
        }
        lemma_no_hit(before, f);
        assert(hits(labels, f) =~= seq![i as nat]);
    } else {
        assert(before[i] == labels[i]);
        assert forall|j: int| 0 <= j < before.len() && j != i implies !f(#[trigger] before[j]) by {
            assert(before[j] == labels[j]);
        }
        lemma_one_hit(before, f, i);
        assert(!f(labels[labels.len() - 1]));
    }
}

/// A text that fits no device hits none.
proof fn lemma_no_hit(labels: Seq<DeviceLabel>, f: spec_fn(DeviceLabel) -> bool)
    requires
        forall|j: int| 0 <= j < labels.len() ==> !f(#[trigger] labels[j]),
    ensures
        hits(labels, f).len() == 0,
    decreases labels.len(),
{
    if labels.len() > 0 {
        let before = labels.drop_last();
        assert forall|j: int| 0 <= j < before.len() implies !f(#[trigger] before[j]) by {
            assert(before[j] == labels[j]);
        }
        lemma_no_hit(before, f);
        assert(!f(labels[labels.len() - 1]));
    }
}

/// Every hit fits, and everything that fits is hit.
proof fn lemma_hits(labels: Seq<DeviceLabel>, f: spec_fn(DeviceLabel) -> bool)
    ensures
        forall|k: int|
            0 <= k < hits(labels, f).len() ==> (#[trigger] hits(labels, f)[k]) < labels.len() && f(
                labels[hits(labels, f)[k] as int],
            ),
        forall|k: int, l: int|
            0 <= k < l < hits(labels, f).len() ==> #[trigger] hits(labels, f)[k]
                < #[trigger] hits(labels, f)[l],
        forall|i: int|
            0 <= i < labels.len() && f(#[trigger] labels[i]) ==> hits(labels, f).contains(i as nat),
    decreases labels.len(),
{
    if labels.len() > 0 {
        let before = labels.drop_last();
        let (h, b) = (hits(labels, f), hits(before, f));
        lemma_hits(before, f);
        assert forall|k: int| 0 <= k < h.len() implies (#[trigger] h[k]) < labels.len() && f(
            labels[h[k] as int],
        ) by {
            if k < b.len() {
                assert(h[k] == b[k]);
                assert(before[b[k] as int] == labels[b[k] as int]);
            }
        }
        assert forall|k: int, l: int| 0 <= k < l < h.len() implies #[trigger] h[k]
            < #[trigger] h[l] by {
            assert(h[k] == b[k]);
            if l < b.len() {
                assert(h[l] == b[l]);
            }
        }
        assert forall|i: int| 0 <= i < labels.len() && f(#[trigger] labels[i]) implies h.contains(
            i as nat,
        ) by {
            if i < before.len() {
                assert(before[i] == labels[i]);
                let k = choose|k: int| 0 <= k < b.len() && b[k] == i as nat;
                assert(h[k] == i as nat);
            } else {
                assert(h[h.len() - 1] == i as nat);
            }
        }
    }
}

/// Several devices hit by one text leave it open.
proof fn lemma_two_hits(labels: Seq<DeviceLabel>, f: spec_fn(DeviceLabel) -> bool, i: int, j: int)
    requires
        0 <= i < labels.len(),
        0 <= j < labels.len(),
        i != j,
        f(labels[i]),
        f(labels[j]),
    ensures
        hits(labels, f).len() >= 2,
{
    lemma_hits(labels, f);
    let h = hits(labels, f);
    let a = choose|a: int| 0 <= a < h.len() && h[a] == i as nat;
    let b = choose|b: int| 0 <= b < h.len() && h[b] == j as nat;
    assert(a != b);
}

/// Without a selector the only device is taken; of several none is, and a list helps.
pub proof fn the_only_device_is_taken(
    labels: &[DeviceLabel],
    r: Result<usize, Refusal>,
    picked: Result<usize, Refusal>,
    sel: &str,
)
    requires
        call_ensures(resolve_device, (labels, None), r),
        call_ensures(pick_device, (labels, sel), picked),
    ensures
        r is Ok <==> labels@.len() == 1,
        r is Ok ==> r->Ok_0 == 0,
        labels@.len() > 1 ==> r is Err && r->Err_0.heading is Some,
        labels@.len() == 0 ==> r is Err && r->Err_0.heading is None && picked is Err,
{
}

/// An index selects the device that is listed under it, either way; one that is not listed
/// is refused.
pub proof fn an_index_selects_its_device(
    labels: &[DeviceLabel],
    sel: &str,
    i: int,
    n: usize,
    r: Result<usize, Refusal>,
    picked: Result<usize, Refusal>,
)
    requires
        sel@ == dec(n as nat),
        labels@.len() > 0,
        call_ensures(resolve_device, (labels, Some(sel)), r),
        call_ensures(pick_device, (labels, sel), picked),
    ensures
        0 <= i < labels@.len() && labels@[i].index == n && (forall|j: int|
            0 <= j < labels@.len() && j != i ==> (#[trigger] labels@[j]).index != n) ==> r
            == Ok::<usize, Refusal>(i as usize) && picked == Ok::<usize, Refusal>(i as usize),
        (forall|j: int| 0 <= j < labels@.len() ==> (#[trigger] labels@[j]).index != n) ==> r is Err
            && picked is Err,
{
    let l = labels@;
    lemma_number(n);
    let f = index_is(n as nat);
    if 0 <= i < l.len() && l[i].index == n && (forall|j: int|
        0 <= j < l.len() && j != i ==> (#[trigger] l[j]).index != n) {
        lemma_one_hit(l, f, i);
    }
    if forall|j: int| 0 <= j < l.len() ==> (#[trigger] l[j]).index != n {
        lemma_no_hit(l, f);
    }
}

/// A number is read as itself.
proof fn lemma_number(n: usize)
    ensures
        parsed_number(dec(n as nat), usize::MAX as nat) == Some(n as nat),
{
    lemma_dec(n as nat);
    lemma_value(n as nat);
    let s = dec(n as nat);
    assert('0' <= s[0] <= '9');
    assert(crate::text::all_digits(s)) by {
        assert forall|i: int| 0 <= i < s.len() implies is_digit(#[trigger] s[i]) by {
            assert('0' <= s[i] <= '9');
        }
    }
}

/// The value of the digits of a number.
proof fn lemma_value(n: nat)
    ensures
        crate::text::decimal_value(dec(n)) == n,
    decreases n,
{
    if n >= 10 {
        lemma_value(n / 10);
        assert(dec(n).drop_last() =~= dec(n / 10));
    } else {
        reveal_with_fuel(crate::text::decimal_value, 2);
        assert(dec(n).drop_last() =~= Seq::<char>::empty());
    }
}

/// Whether a text cannot be an index.
pub open spec fn no_index(s: Seq<char>) -> bool {
    s.len() > 0 && s[0] != '+' && !('0' <= s[0] <= '9')
}

/// The name of a transport selects the device on it, either way; if several are on it, none
/// is selected.
pub proof fn a_transport_selects_its_device(
    labels: &[DeviceLabel],
    sel: &str,
    i: int,
    j: int,
    r: Result<usize, Refusal>,
    picked: Result<usize, Refusal>,
)
    requires
        no_index(sel@),
        0 <= i < labels@.len(),
        labels@[i].transport_name@ == sel@,
        call_ensures(resolve_device, (labels, Some(sel)), r),
        call_ensures(pick_device, (labels, sel), picked),
    ensures
        (forall|k: int|
            0 <= k < labels@.len() && k != i ==> (#[trigger] labels@[k]).transport_name@ != sel@)
            ==> r == Ok::<usize, Refusal>(i as usize) && picked == Ok::<usize, Refusal>(i as usize),
        0 <= j < labels@.len() && j != i && labels@[j].transport_name@ == sel@ ==> r is Err
            && r->Err_0.heading is Some && picked is Err,
{
    let l = labels@;
    let f = transport_is(sel@);
    assert(!is_digit(sel@[0]));
    assert(parsed_number(sel@, usize::MAX as nat) is None);
    if forall|k: int| 0 <= k < l.len() && k != i ==> (#[trigger] l[k]).transport_name@ != sel@ {
        lemma_one_hit(l, f, i);
    }
    if 0 <= j < l.len() && j != i && l[j].transport_name@ == sel@ {
        lemma_two_hits(l, f, i, j);
    }
}

/// The start of a path selects the device there if no transport is called so; if it fits
/// several, none is selected.
pub proof fn a_path_selects_its_device(
    labels: &[DeviceLabel],
    sel: &str,
    i: int,
    j: int,
    r: Result<usize, Refusal>,
)
    requires
        no_index(sel@),
        0 <= i < labels@.len(),
        sel@.is_prefix_of(labels@[i].hid_path@),
        forall|k: int| 0 <= k < labels@.len() ==> (#[trigger] labels@[k]).transport_name@ != sel@,
        call_ensures(resolve_device, (labels, Some(sel)), r),
    ensures
        (forall|k: int|
            0 <= k < labels@.len() && k != i ==> !sel@.is_prefix_of(
                (#[trigger] labels@[k]).hid_path@,
            )) ==> r == Ok::<usize, Refusal>(i as usize),
        0 <= j < labels@.len() && j != i && sel@.is_prefix_of(labels@[j].hid_path@) ==> r is Err
            && r->Err_0.heading is Some,
{
    let l = labels@;
    let f = path_starts(sel@);
    assert(!is_digit(sel@[0]));
    assert(parsed_number(sel@, usize::MAX as nat) is None);
    lemma_no_hit(l, transport_is(sel@));
    if forall|k: int|
        0 <= k < l.len() && k != i ==> !sel@.is_prefix_of((#[trigger] l[k]).hid_path@) {
        lemma_one_hit(l, f, i);
    }
    if 0 <= j < l.len() && j != i && sel@.is_prefix_of(l[j].hid_path@) {
        lemma_two_hits(l, f, i, j);
    }
}

/// Whichever device is selected, it fits the selector; what fits nothing selects nothing.
pub proof fn a_selected_device_fits(
    labels: &[DeviceLabel],
    sel: &str,
    r: Result<usize, Refusal>,
    picked: Result<usize, Refusal>,
)
    requires
        no_index(sel@),
        call_ensures(resolve_device, (labels, Some(sel)), r),
        call_ensures(pick_device, (labels, sel), picked),
    ensures
        r is Ok ==> r->Ok_0 < labels@.len() && (labels@[r->Ok_0 as int].transport_name@ == sel@
            || sel@.is_prefix_of(labels@[r->Ok_0 as int].hid_path@)),
        picked is Ok ==> picked->Ok_0 < labels@.len()
            && (labels@[picked->Ok_0 as int].transport_name@
            == sel@ || exists|at: int|
            0 <= at && at + sel@.len() <= labels@[picked->Ok_0 as int].hid_path@.len()
                && #[trigger] labels@[picked->Ok_0 as int].hid_path@.subrange(at, at + sel@.len())
                == sel@),
{
    let l = labels@;
    assert(!is_digit(sel@[0]));
    assert(parsed_number(sel@, usize::MAX as nat) is None);
    lemma_hits(l, transport_is(sel@));
    lemma_hits(l, path_starts(sel@));
    lemma_hits(l, path_holds(sel@));
    if picked is Ok && l[picked->Ok_0 as int].transport_name@ != sel@ {
        let path = l[picked->Ok_0 as int].hid_path@;
        assert(path_holds(sel@)(l[picked->Ok_0 as int]));
        let at = choose|at: int| #[trigger] crate::text::occurs_at(path, sel@, at);
        assert(path.subrange(at, at + sel@.len()) == sel@);
    }
}

/// A device tells its id in the four bytes behind the echo, lowest first; an answer to
/// something else tells none.
pub proof fn a_device_tells_its_id(cmd: u8, reply: &Reply, r: Option<i32>)
    requires
        call_ensures(query_device_id, (cmd, reply), r),
    ensures
        r is Some <==> reply is Ok && reply->Ok_0@.len() >= 5 && reply->Ok_0@[0] == cmd,
        r is Some && reply->Ok_0@[4] < 128 ==> r->0 == reply->Ok_0@[1] + 256 * reply->Ok_0@[2]
            + 65536 * reply->Ok_0@[3] + 16777216 * reply->Ok_0@[4],
{
}

} // verus!
