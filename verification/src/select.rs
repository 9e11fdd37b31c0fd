//! Choosing a device among those that were discovered.

use crate::bits::{double_word, le32};
use crate::exchange::{reply_view, Reply, ReplyView};
use crate::text::{
    contains, contains_text, dec, occurs_at, parse_number, parsed_number, push_dec, starts_with,
    str_eq,
};
use vstd::prelude::*;

verus! {

/// What a discovered device is called.
#[derive(Debug, Clone, PartialEq, Eq)]
pub struct DeviceLabel {
    pub index: usize,
    pub model_name: String,
    /// `usb`, `dongle` or `bt`.
    pub transport_name: String,
    pub hid_path: String,
    pub device_id: Option<u32>,
    pub version: Option<u16>,
}

/// Why no device was chosen.
#[derive(Debug, PartialEq, Eq)]
pub struct Refusal {
    /// Heading for a list of the devices, where the list helps.
    pub heading: Option<String>,
    pub message: String,
}

/// A [`Refusal`] with its texts as characters.
#[verifier::ext_equal]
pub struct RefusalView {
    pub heading: Option<Seq<char>>,
    pub message: Seq<char>,
}

impl View for Refusal {
    type V = RefusalView;

    open spec fn view(&self) -> RefusalView {
        RefusalView {
            heading: match self.heading {
                Some(h) => Some(h@),
                None => None,
            },
            message: self.message@,
        }
    }
}

/// A choice as contracts see it.
pub open spec fn choice_view(r: Result<usize, Refusal>) -> Result<nat, RefusalView> {
    match r {
        Ok(i) => Ok(i as nat),
        Err(e) => Err(e@),
    }
}

/// A refusal without a list.
pub open spec fn refused(message: Seq<char>) -> RefusalView {
    RefusalView { heading: None, message }
}

/// The places of the labels for which `f` holds.
pub open spec fn hits(labels: Seq<DeviceLabel>, f: spec_fn(DeviceLabel) -> bool) -> Seq<nat>
    decreases labels.len(),
{
    if labels.len() == 0 {
        Seq::empty()
    } else {
        let before = hits(labels.drop_last(), f);
        if f(labels.last()) {
            before.push((labels.len() - 1) as nat)
        } else {
            before
        }
    }
}

/// Being on a transport.
pub open spec fn transport_is(name: Seq<char>) -> spec_fn(DeviceLabel) -> bool {
    |l: DeviceLabel| l.transport_name@ == name
}

/// Having a path that holds a text.
pub open spec fn path_holds(part: Seq<char>) -> spec_fn(DeviceLabel) -> bool {
    |l: DeviceLabel| contains_text(l.hid_path@, part)
}

/// Having a path that starts with a text.
pub open spec fn path_starts(part: Seq<char>) -> spec_fn(DeviceLabel) -> bool {
    |l: DeviceLabel| part.is_prefix_of(l.hid_path@)
}

/// Having an index.
pub open spec fn index_is(index: nat) -> spec_fn(DeviceLabel) -> bool {
    |l: DeviceLabel| l.index == index
}

/// The places of the devices on a transport.
pub open spec fn on_transport(labels: Seq<DeviceLabel>, name: Seq<char>) -> Seq<nat> {
    hits(labels, transport_is(name))
}

/// The places of the devices whose path holds a text.
pub open spec fn at_path(labels: Seq<DeviceLabel>, part: Seq<char>) -> Seq<nat> {
    hits(labels, path_holds(part))
}

/// The places of the devices whose path starts with a text.
pub open spec fn under_path(labels: Seq<DeviceLabel>, part: Seq<char>) -> Seq<nat> {
    hits(labels, path_starts(part))
}

/// The first place of a device with an index.
pub open spec fn with_index(labels: Seq<DeviceLabel>, index: nat) -> Option<nat> {
    let found = hits(labels, index_is(index));
    if found.len() > 0 {
        Some(found[0])
    } else {
        None
    }
}

/// Which device a command works on.
///
/// A selector is an index, else a transport's name, else the start of a path; what fits
/// several devices is refused. Without one, the only device is taken.
pub open spec fn chosen(labels: Seq<DeviceLabel>, selector: Option<Seq<char>>) -> Result<
    nat,
    RefusalView,
> {
    if labels.len() == 0 {
        Err(refused("No supported device found"@))
    } else {
        match selector {
            Some(sel) => match parsed_number(sel, usize::MAX as nat) {
                Some(index) => match with_index(labels, index) {
                    Some(at) => Ok(at),
                    None => Err(
                        refused(
                            "Device index "@ + dec(index) + " out of range (0-"@ + dec(
                                (labels.len() - 1) as nat,
                            ) + ")"@,
                        ),
                    ),
                },
                None => chosen_by_text(labels, sel),
            },
            None => if labels.len() == 1 {
                Ok(0)
            } else {
                Err(
                    RefusalView {
                        heading: Some("Multiple devices found. Use --device (-D) to select:"@),
                        message: "Multiple devices found, use --device to select"@,
                    },
                )
            },
        }
    }
}

/// Which device a selector that is no index means.
pub open spec fn chosen_by_text(labels: Seq<DeviceLabel>, sel: Seq<char>) -> Result<
    nat,
    RefusalView,
> {
    let transports = on_transport(labels, sel);
    let paths = under_path(labels, sel);
    if transports.len() == 1 {
        Ok(transports[0])
    } else if transports.len() > 1 {
        Err(
            RefusalView {
                heading: Some("Multiple devices match transport '"@ + sel + "':"@),
                message: "Ambiguous --device '"@ + sel + "': "@ + dec(transports.len())
                    + " matches. Use index or HID path."@,
            },
        )
    } else if paths.len() == 1 {
        Ok(paths[0])
    } else if paths.len() > 1 {
        Err(
            RefusalView {
                heading: Some("Multiple devices match path '"@ + sel + "':"@),
                message: "Ambiguous --device '"@ + sel + "': "@ + dec(paths.len()) + " matches."@,
            },
        )
    } else {
        Err(refused("No device matches '"@ + sel + "'"@))
    }
}

/// Which device the interactive interface connects to for a selector. It lists nothing,
/// and takes any part of a path.
pub open spec fn chosen_interactively(labels: Seq<DeviceLabel>, sel: Seq<char>) -> Result<
    nat,
    RefusalView,
> {
    let transports = on_transport(labels, sel);
    let paths = at_path(labels, sel);
    if labels.len() == 0 {
        Err(refused("No supported device found"@))
    } else {
        match parsed_number(sel, usize::MAX as nat) {
            Some(index) => match with_index(labels, index) {
                Some(at) => Ok(at),
                None => Err(refused("Device index "@ + dec(index) + " out of range"@)),
            },
            None => if transports.len() == 1 {
                Ok(transports[0])
            } else if transports.len() > 1 {
                Err(
                    refused(
                        "Ambiguous --device '"@ + sel + "': "@ + dec(transports.len())
                            + " matches"@,
                    ),
                )
            } else if paths.len() == 1 {
                Ok(paths[0])
            } else {
                Err(refused("No device matches '"@ + sel + "'"@))
            },
        }
    }
}

/// Places lie within the list, and `f` holds there.
proof fn lemma_hits(labels: Seq<DeviceLabel>, f: spec_fn(DeviceLabel) -> bool)
    ensures
        hits(labels, f).len() <= labels.len(),
        forall|k: int|
            0 <= k < hits(labels, f).len() ==> (#[trigger] hits(labels, f)[k]) < labels.len() && f(
                labels[hits(labels, f)[k] as int],
            ),
    decreases labels.len(),
{
    if labels.len() > 0 {
        let before = labels.drop_last();
        lemma_hits(before, f);
        assert forall|k: int| 0 <= k < hits(labels, f).len() implies (#[trigger] hits(
            labels,
            f,
        )[k]) < labels.len() && f(labels[hits(labels, f)[k] as int]) by {
            if k < hits(before, f).len() {
                let p = hits(before, f)[k] as int;
                assert(before[p] == labels[p]);
            }
        }
    }
}

/// A device that is chosen exists.
pub proof fn chosen_device_exists(labels: Seq<DeviceLabel>, selector: Option<Seq<char>>)
    ensures
        chosen(labels, selector) matches Ok(at) ==> at < labels.len(),
        selector matches Some(sel) ==> (chosen_interactively(labels, sel) matches Ok(at) ==> at
            < labels.len()),
{
    if let Some(sel) = selector {
        lemma_hits(labels, transport_is(sel));
        lemma_hits(labels, path_holds(sel));
        lemma_hits(labels, path_starts(sel));
        if let Some(index) = parsed_number(sel, usize::MAX as nat) {
            lemma_hits(labels, index_is(index));
        }
    }
}

/// Wherever `f` holds, there is a hit.
proof fn lemma_hit(labels: Seq<DeviceLabel>, f: spec_fn(DeviceLabel) -> bool, i: int)
    requires
        0 <= i < labels.len(),
        f(labels[i]),
    ensures
        hits(labels, f).contains(i as nat),
    decreases labels.len(),
{
    let before = labels.drop_last();
    if i < before.len() {
        lemma_hit(before, f, i);
        let k = choose|k: int|
            0 <= k < hits(before, f).len() && hits(before, f)[k] == i as nat;
        assert(hits(labels, f)[k] == i as nat);
    } else {
        assert(hits(labels, f).last() == i as nat);
    }
}

/// Where the two ways of choosing by a selector both succeed, they choose the same
/// device.
pub proof fn both_ways_choose_the_same(labels: Seq<DeviceLabel>, sel: Seq<char>)
    requires
        chosen(labels, Some(sel)) is Ok,
        chosen_interactively(labels, sel) is Ok,
    ensures
        chosen(labels, Some(sel)) == chosen_interactively(labels, sel),
{
    let starts = under_path(labels, sel);
    let holds = at_path(labels, sel);
    lemma_hits(labels, path_starts(sel));
    if starts.len() == 1 && holds.len() == 1 {
        let path = labels[starts[0] as int].hid_path@;
        assert(occurs_at(path, sel, 0));
        assert(path_holds(sel)(labels[starts[0] as int]));
        lemma_hit(labels, path_holds(sel), starts[0] as int);
    }
}

/// Places as contracts see them.
pub open spec fn places_view(v: Seq<usize>) -> Seq<nat> {
    v.map_values(|i: usize| i as nat)
}

/// The places of the devices on a transport.
fn find_transport(labels: &[DeviceLabel], name: &str) -> (r: Vec<usize>)
    ensures
        places_view(r@) == on_transport(labels@, name@),
{
    let ghost f = transport_is(name@);
    let mut out: Vec<usize> = Vec::new();
    let mut i: usize = 0;
    assert(labels@.take(0).len() == 0);
    assert(places_view(out@) =~= hits(labels@.take(0), f));
    while i < labels.len()
        invariant
            i <= labels@.len(),
            f == transport_is(name@),
            places_view(out@) == hits(labels@.take(i as int), f),
        decreases labels@.len() - i,
    {
        assert(labels@.take(i + 1).drop_last() =~= labels@.take(i as int));
        let ghost before = out@;
        if str_eq(labels[i].transport_name.as_str(), name) {
            out.push(i);
            assert(places_view(out@) =~= places_view(before).push(i as nat));
        }
        i += 1;
    }
    assert(labels@.take(i as int) =~= labels@);
    out
}

/// The places of the devices whose path holds a text.
fn find_path(labels: &[DeviceLabel], part: &str) -> (r: Vec<usize>)
    ensures
        places_view(r@) == at_path(labels@, part@),
{
    let ghost f = path_holds(part@);
    let mut out: Vec<usize> = Vec::new();
    let mut i: usize = 0;
    assert(labels@.take(0).len() == 0);
    assert(places_view(out@) =~= hits(labels@.take(0), f));
    while i < labels.len()
        invariant
            i <= labels@.len(),
            f == path_holds(part@),
            places_view(out@) == hits(labels@.take(i as int), f),
        decreases labels@.len() - i,
    {
        assert(labels@.take(i + 1).drop_last() =~= labels@.take(i as int));
        let ghost before = out@;
        if contains(labels[i].hid_path.as_str(), part) {
            out.push(i);
            assert(places_view(out@) =~= places_view(before).push(i as nat));
        }
        i += 1;
    }
    assert(labels@.take(i as int) =~= labels@);
    out
}

/// The places of the devices whose path starts with a text.
fn find_path_start(labels: &[DeviceLabel], part: &str) -> (r: Vec<usize>)
    ensures
        places_view(r@) == under_path(labels@, part@),
{
    let ghost f = path_starts(part@);
    let mut out: Vec<usize> = Vec::new();
    let mut i: usize = 0;
    assert(labels@.take(0).len() == 0);
    assert(places_view(out@) =~= hits(labels@.take(0), f));
    while i < labels.len()
        invariant
            i <= labels@.len(),
            f == path_starts(part@),
            places_view(out@) == hits(labels@.take(i as int), f),
        decreases labels@.len() - i,
    {
        assert(labels@.take(i + 1).drop_last() =~= labels@.take(i as int));
        let ghost before = out@;
        if starts_with(labels[i].hid_path.as_str(), part) {
            out.push(i);
            assert(places_view(out@) =~= places_view(before).push(i as nat));
        }
        i += 1;
    }
    assert(labels@.take(i as int) =~= labels@);
    out
}

/// The first place of a device with an index.
fn find_index(labels: &[DeviceLabel], index: usize) -> (r: Option<usize>)
    ensures
        match r {
            Some(at) => with_index(labels@, index as nat) == Some(at as nat),
            None => with_index(labels@, index as nat) is None,
        },
{
    let ghost f = index_is(index as nat);
    let mut found: Option<usize> = None;
    let mut i: usize = 0;
    assert(labels@.take(0).len() == 0);
    while i < labels.len()
        invariant
            i <= labels@.len(),
            f == index_is(index as nat),
            match found {
                Some(at) => hits(labels@.take(i as int), f).len() > 0 && hits(
                    labels@.take(i as int),
                    f,
                )[0] == at,
                None => hits(labels@.take(i as int), f).len() == 0,
            },
        decreases labels@.len() - i,
    {
        assert(labels@.take(i + 1).drop_last() =~= labels@.take(i as int));
        if labels[i].index == index && found.is_none() {
            found = Some(i);
        }
        i += 1;
    }
    assert(labels@.take(i as int) =~= labels@);
    found
}

/// A refusal without a list.
fn refuse(message: String) -> (r: Result<usize, Refusal>)
    ensures
        choice_view(r) == Err::<nat, RefusalView>(refused(message@)),
{
    Err(Refusal { heading: None, message })
}

/// `"{before}'{sel}'{after}"`.
fn quoted(before: &str, sel: &str, after: &str) -> (r: String)
    ensures
        r@ == before@ + sel@ + after@,
{
    let mut out: String = before.to_owned();
    out.append(sel);
    out.append(after);
    out
}

/// Which device a command works on, among those discovered.
pub fn resolve_device(labels: &[DeviceLabel], selector: Option<&str>) -> (r: Result<usize, Refusal>)
    ensures
        choice_view(r) == chosen(
            labels@,
            match selector {
                Some(sel) => Some(sel@),
                None => None,
            },
        ),
{
    let n: usize = labels.len();
    if n == 0 {
        return refuse("No supported device found".to_owned());
    }
    let sel: &str = match selector {
        Some(sel) => sel,
        None => {
            if n == 1 {
                return Ok(0);
            }
            return Err(
                Refusal {
                    heading: Some(
                        "Multiple devices found. Use --device (-D) to select:".to_owned(),
                    ),
                    message: "Multiple devices found, use --device to select".to_owned(),
                },
            );
        },
    };
    if let Some(index) = parse_number(sel, usize::MAX as u64) {
        return match find_index(labels, index as usize) {
            Some(at) => Ok(at),
            None => {
                let mut m: String = "Device index ".to_owned();
                push_dec(&mut m, index);
                m.append(" out of range (0-");
                push_dec(&mut m, (n - 1) as u64);
                m.append(")");
                refuse(m)
            },
        };
    }
    let transports: Vec<usize> = find_transport(labels, sel);
    assert(on_transport(labels@, sel@).len() == transports@.len());
    if transports.len() == 1 {
        assert(on_transport(labels@, sel@)[0] == transports@[0] as nat);
        return Ok(transports[0]);
    }
    if transports.len() > 1 {
        let mut m: String = quoted("Ambiguous --device '", sel, "': ");
        push_dec(&mut m, transports.len() as u64);
        m.append(" matches. Use index or HID path.");
        return Err(
            Refusal {
                heading: Some(quoted("Multiple devices match transport '", sel, "':")),
                message: m,
            },
        );
    }
    let paths: Vec<usize> = find_path_start(labels, sel);
    assert(under_path(labels@, sel@).len() == paths@.len());
    if paths.len() == 1 {
        assert(under_path(labels@, sel@)[0] == paths@[0] as nat);
        return Ok(paths[0]);
    }
    if paths.len() > 1 {
        let mut m: String = quoted("Ambiguous --device '", sel, "': ");
        push_dec(&mut m, paths.len() as u64);
        m.append(" matches.");
        return Err(
            Refusal {
                heading: Some(quoted("Multiple devices match path '", sel, "':")),
                message: m,
            },
        );
    }
    refuse(quoted("No device matches '", sel, "'"))
}

/// Which device the interactive interface connects to for a selector.
pub fn pick_device(labels: &[DeviceLabel], sel: &str) -> (r: Result<usize, Refusal>)
    ensures
        choice_view(r) == chosen_interactively(labels@, sel@),
{
    if labels.len() == 0 {
        return refuse("No supported device found".to_owned());
    }
    if let Some(index) = parse_number(sel, usize::MAX as u64) {
        return match find_index(labels, index as usize) {
            Some(at) => Ok(at),
            None => {
                let mut m: String = "Device index ".to_owned();
                push_dec(&mut m, index);
                m.append(" out of range");
                refuse(m)
            },
        };
    }
    let transports: Vec<usize> = find_transport(labels, sel);
    assert(on_transport(labels@, sel@).len() == transports@.len());
    if transports.len() == 1 {
        assert(on_transport(labels@, sel@)[0] == transports@[0] as nat);
        return Ok(transports[0]);
    }
    if transports.len() > 1 {
        let mut m: String = quoted("Ambiguous --device '", sel, "': ");
        push_dec(&mut m, transports.len() as u64);
        m.append(" matches");
        return refuse(m);
    }
    let paths: Vec<usize> = find_path(labels, sel);
    assert(at_path(labels@, sel@).len() == paths@.len());
    if paths.len() == 1 {
        assert(at_path(labels@, sel@)[0] == paths@[0] as nat);
        return Ok(paths[0]);
    }
    refuse(quoted("No device matches '", sel, "'"))
}

/// The device ID that the reply to a version query tells, if it does. Firmware IDs are
/// signed in the database.
pub open spec fn device_id_told(cmd: u8, reply: ReplyView) -> Option<i32> {
    match reply {
        Ok(d) => if d.len() >= 5 && d[0] == cmd {
            Some(le32(d[1], d[2], d[3], d[4]) as i32)
        } else {
            None
        },
        Err(_) => None,
    }
}

/// The device ID that the reply to a version query tells, if it does.
pub fn query_device_id(cmd: u8, reply: &Reply) -> (r: Option<i32>)
    ensures
        r == device_id_told(cmd, reply_view(*reply)),
{
    match reply {
        Ok(d) => if d.len() >= 5 && d[0] == cmd {
            Some(double_word(d[1], d[2], d[3], d[4]) as i32)
        } else {
            None
        },
        Err(_) => None,
    }
}

} // verus!
