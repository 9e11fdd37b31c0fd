//! References to a key on a layer, such as `Caps`, `Fn+Caps`, `L1+A` or `42`.

use crate::keymap::KeyTables;
use crate::protocol::{layer_named, Layer, MatrixPos};
use crate::registry::name_views;
use crate::text::{lowercased, parse_number, parsed_number, str_eq, to_lowercase};
use vstd::prelude::*;

verus! {

/// A key on a layer.
#[derive(Debug, Clone, PartialEq, Eq)]
pub struct KeyRef {
    pub index: MatrixPos,
    pub layer: Layer,
    /// Name of the position.
    pub position: String,
}

/// Where the first `+` stands.
pub open spec fn first_plus(s: Seq<char>) -> Option<int>
    decreases s.len(),
{
    if s.len() == 0 {
        None
    } else if s[0] == '+' {
        Some(0)
    } else {
        match first_plus(s.drop_first()) {
            Some(i) => Some(i + 1),
            None => None,
        }
    }
}

/// The layer and the rest of a reference in lower case. A prefix that names no layer is
/// none.
pub open spec fn split_layer(s: Seq<char>) -> (Layer, Seq<char>) {
    match first_plus(s) {
        Some(p) => match layer_named(s.take(p)) {
            Some(layer) => (layer, s.skip(p + 1)),
            None => (Layer::Base, s),
        },
        None => (Layer::Base, s),
    }
}

/// Whether a reference in lower case has a layer prefix: what stands before its first `+`
/// names a layer.
pub open spec fn has_prefix(s: Seq<char>) -> bool {
    first_plus(s) matches Some(p) && layer_named(s.take(p)) is Some
}

/// The first position with a name.
pub open spec fn position_of(names: Seq<Seq<char>>, name: Seq<char>) -> Option<int>
    decreases names.len(),
{
    if names.len() == 0 {
        None
    } else if names[0] == name {
        Some(0)
    } else {
        match position_of(names.drop_first(), name) {
            Some(i) => Some(i + 1),
            None => None,
        }
    }
}

/// The position that a key name or a number stands for. A name goes before a number.
pub open spec fn key_position(names: Seq<Seq<char>>, s: Seq<char>) -> Option<u8> {
    match position_of(names, s) {
        Some(i) => if i < 256 {
            Some(i as u8)
        } else {
            None
        },
        None => match parsed_number(s, 255) {
            Some(n) => Some(n as u8),
            None => None,
        },
    }
}

/// The key and the layer that a reference in lower case stands for, given the names of
/// the positions in lower case.
pub open spec fn reference(names: Seq<Seq<char>>, s: Seq<char>) -> Option<(u8, Layer)> {
    let (layer, key) = split_layer(s);
    match key_position(names, key) {
        Some(index) => Some((index, layer)),
        None => None,
    }
}

/// Where the first `+` stands.
fn find_plus(s: &str) -> (r: Option<usize>)
    ensures
        match r {
            Some(i) => first_plus(s@) == Some(i as int) && i < s@.len(),
            None => first_plus(s@) is None,
        },
{
    let n: usize = s.unicode_len();
    let mut i: usize = 0;
    assert(s@.skip(0) =~= s@);
    while i < n
        invariant
            i <= n == s@.len(),
            first_plus(s@) == (match first_plus(s@.skip(i as int)) {
                Some(k) => Some(k + i),
                None => None,
            }),
        decreases n - i,
    {
        assert(s@.skip(i as int).drop_first() =~= s@.skip(i + 1));
        if s.get_char(i) == '+' {
            return Some(i);
        }
        i += 1;
    }
    None
}

/// Whether a reference in lower case has a layer prefix.
pub fn has_layer_prefix(s: &str) -> (r: bool)
    ensures
        r == has_prefix(s@),
{
    match find_plus(s) {
        Some(p) => {
            let prefix: &str = s.substring_char(0, p);
            assert(prefix@ =~= s@.take(p as int));
            Layer::from_lower_case(prefix).is_some()
        },
        None => false,
    }
}

/// The first position with a name.
fn find_name(names: &Vec<String>, name: &str) -> (r: Option<usize>)
    ensures
        match r {
            Some(i) => position_of(name_views(names@), name@) == Some(i as int),
            None => position_of(name_views(names@), name@) is None,
        },
{
    let mut i: usize = 0;
    let ghost views = name_views(names@);
    assert(views.skip(0) =~= views);
    while i < names.len()
        invariant
            i <= names@.len(),
            views == name_views(names@),
            position_of(views, name@) == (match position_of(views.skip(i as int), name@) {
                Some(k) => Some(k + i),
                None => None,
            }),
        decreases names@.len() - i,
    {
        assert(views.skip(i as int).drop_first() =~= views.skip(i + 1));
        if str_eq(names[i].as_str(), name) {
            return Some(i);
        }
        i += 1;
    }
    None
}

/// The key and the layer that a reference in lower case stands for.
pub fn resolve_reference(names: &Vec<String>, s: &str) -> (r: Option<(u8, Layer)>)
    ensures
        r == reference(name_views(names@), s@),
{
    let n: usize = s.unicode_len();
    let (layer, key): (Layer, &str) = match find_plus(s) {
        Some(p) => {
            let prefix: &str = s.substring_char(0, p);
            assert(prefix@ =~= s@.take(p as int));
            match Layer::from_lower_case(prefix) {
                Some(layer) => {
                    let rest: &str = s.substring_char(p + 1, n);
                    assert(rest@ =~= s@.skip(p + 1));
                    (layer, rest)
                },
                None => (Layer::Base, s),
            }
        },
        None => (Layer::Base, s),
    };
    let index: Option<u8> = match find_name(names, key) {
        Some(i) => if i < 256 {
            Some(i as u8)
        } else {
            None
        },
        None => match parse_number(key, 255) {
            Some(v) => Some(v as u8),
            None => None,
        },
    };
    match index {
        Some(i) => Some((i, layer)),
        None => None,
    }
}

/// Names in lower case.
pub open spec fn lower_names(names: Seq<String>) -> Seq<Seq<char>> {
    names.map_values(|s: String| lowercased(s@))
}

/// Names in lower case.
fn lower_case_names(names: &Vec<String>) -> (r: Vec<String>)
    ensures
        name_views(r@) == lower_names(names@),
{
    let mut out: Vec<String> = Vec::new();
    let mut i: usize = 0;
    while i < names.len()
        invariant
            i <= names@.len(),
            out@.len() == i,
            forall|k: int| 0 <= k < i ==> (#[trigger] out@[k])@ == lowercased(names@[k]@),
        decreases names@.len() - i,
    {
        out.push(to_lowercase(names[i].as_str()));
        i += 1;
    }
    assert(name_views(out@) =~= lower_names(names@));
    out
}

impl KeyRef {
    /// A key on a layer, with the name that the tables give to its position.
    pub fn new(tables: &KeyTables, index: MatrixPos, layer: Layer) -> (r: KeyRef)
        ensures
            r.index == index,
            r.layer == layer,
            r.position@ == tables.name(index.pos as int),
    {
        KeyRef { index, layer, position: tables.key_name(index).to_owned() }
    }

    /// Read a reference, in either case: a key by name or number, behind an optional layer
    /// and a `+`.
    pub fn parse(tables: &KeyTables, s: &str) -> (r: Option<KeyRef>)
        ensures
            match r {
                Some(k) => reference(lower_names(tables.names@), lowercased(s@)) == Some(
                    (k.index.pos, k.layer),
                ) && k.position@ == tables.name(k.index.pos as int),
                None => reference(lower_names(tables.names@), lowercased(s@)) is None,
            },
    {
        let low: Vec<String> = lower_case_names(&tables.names);
        let text: String = to_lowercase(s);
        match resolve_reference(&low, text.as_str()) {
            Some((index, layer)) => Some(KeyRef::new(tables, MatrixPos { pos: index }, layer)),
            None => None,
        }
    }

    /// The reference as text: the position, behind its layer unless that is the base.
    pub fn text(&self) -> (r: String)
        ensures
            r@ == (if self.layer == Layer::Base {
                self.position@
            } else {
                self.layer.short_name() + "+"@ + self.position@
            }),
    {
        match self.layer {
            Layer::Base => self.position.clone(),
            _ => {
                let mut out: String = self.layer.as_str().to_owned();
                out.append("+");
                out.append(self.position.as_str());
                out
            },
        }
    }
}

/// A layer prefix decides the layer, and what follows it the key: for every layer name,
/// the key behind it is the one without it, unless that has a layer prefix itself.
pub proof fn prefix_selects_the_layer(names: Seq<Seq<char>>, prefix: Seq<char>, key: Seq<char>)
    requires
        layer_named(prefix) is Some,
        !has_prefix(key),
    ensures
        reference(names, prefix + seq!['+'] + key) == (match reference(names, key) {
            Some((index, _)) => Some((index, layer_named(prefix)->0)),
            None => None,
        }),
{
    let s = prefix + seq!['+'] + key;
    lemma_layer_names(prefix);
    lemma_first_plus(prefix, key);
    assert(s.take(prefix.len() as int) =~= prefix);
    assert(s.skip((prefix.len() + 1) as int) =~= key);
}

/// No layer name holds a `+`.
proof fn lemma_layer_names(name: Seq<char>)
    requires
        layer_named(name) is Some,
    ensures
        first_plus(name) is None,
{
    reveal_with_fuel(first_plus, 5);
    reveal_strlit("0");
    reveal_strlit("l0");
    reveal_strlit("base");
    reveal_strlit("1");
    reveal_strlit("l1");
    reveal_strlit("2");
    reveal_strlit("fn");
}

/// The first `+` stands behind text that has none.
proof fn lemma_first_plus(prefix: Seq<char>, key: Seq<char>)
    requires
        first_plus(prefix) is None,
    ensures
        first_plus(prefix + seq!['+'] + key) == Some(prefix.len() as int),
    decreases prefix.len(),
{
    let s = prefix + seq!['+'] + key;
    if prefix.len() > 0 {
        assert(s[0] == prefix[0]);
        assert(s.drop_first() =~= prefix.drop_first() + seq!['+'] + key);
        lemma_first_plus(prefix.drop_first(), key);
    } else {
        assert(s[0] == '+');
    }
}

} // verus!
