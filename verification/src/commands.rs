//! Decisions and texts of the command line.

use crate::bindings::{keymatrix_read, layer_write, usage_write, write_usage, KEYMATRIX_PAGES};
use crate::bits::{double_word, le16, le32, sub_bytes, word};
use crate::error::{ErrorView, KeyboardError};
use crate::exchange::{seen, send_from, sent, sent_from, Part, PartView, Reply, ReplyView, Step};
use crate::key_action::KeyAction;
use crate::key_ref::{has_layer_prefix, has_prefix, lower_names, reference, KeyRef};
use crate::keyboard::KeyboardInterface;
use crate::keymap::{reset_write, set_key, KeyTables, LoadStage};
use crate::led::{speed_to_wire, wire_speed, DAZZLE_ON};
use crate::magnetism::{byte_at, get_byte};
use crate::protocol::{
    requests, CommandTable, HidUsage, KeymatrixLayer, Layer, MatrixPos, Profile, Request,
    RequestView,
};
use crate::registry::name_views;
use crate::settings::{FirmwareVersion, KeyboardOptions};
use crate::text::{
    bool_str, bool_text, dec, dec2, hex2_lower, hex2_upper, hex_list, hex_upper_min4, lowercased,
    push_dec, push_dec2, push_hex2_lower, push_hex2_upper, push_hex_list, push_hex_upper_min4,
    repeated, to_lowercase,
};
use vstd::prelude::*;

verus! {

/// What a command answer is, by the command byte.
#[derive(Debug, Clone, Copy, PartialEq, Eq, Structural)]
pub enum AnswerKind {
    Version,
    Profile,
    Debounce,
    Led,
    Options,
    Features,
    Sleep,
    Other,
}

/// What a command answer is, by the command byte.
pub open spec fn answer_kind(c: CommandTable, cmd: u8) -> AnswerKind {
    if cmd == c.get_usb_version {
        AnswerKind::Version
    } else if cmd == c.get_profile {
        AnswerKind::Profile
    } else if cmd == c.get_debounce {
        AnswerKind::Debounce
    } else if cmd == c.get_ledparam {
        AnswerKind::Led
    } else if c.get_kboption == Some(cmd) {
        AnswerKind::Options
    } else if cmd == c.get_feature_list {
        AnswerKind::Features
    } else if c.get_sleeptime == Some(cmd) {
        AnswerKind::Sleep
    } else {
        AnswerKind::Other
    }
}

/// What a command answer is, by the command byte.
pub fn classify_answer(c: &CommandTable, cmd: u8) -> (r: AnswerKind)
    ensures
        r == answer_kind(*c, cmd),
{
    if cmd == c.get_usb_version {
        AnswerKind::Version
    } else if cmd == c.get_profile {
        AnswerKind::Profile
    } else if cmd == c.get_debounce {
        AnswerKind::Debounce
    } else if cmd == c.get_ledparam {
        AnswerKind::Led
    } else if c.get_kboption.is_some() && c.get_kboption.unwrap() == cmd {
        AnswerKind::Options
    } else if cmd == c.get_feature_list {
        AnswerKind::Features
    } else if c.get_sleeptime.is_some() && c.get_sleeptime.unwrap() == cmd {
        AnswerKind::Sleep
    } else {
        AnswerKind::Other
    }
}

/// How many bytes an answer must have to be shown.
pub open spec fn answer_len(kind: AnswerKind) -> nat {
    match kind {
        AnswerKind::Version => 9,
        AnswerKind::Profile => 2,
        AnswerKind::Debounce => 2,
        AnswerKind::Led => 8,
        AnswerKind::Options => 1,
        AnswerKind::Features => 11,
        AnswerKind::Sleep => 3,
        AnswerKind::Other => 1,
    }
}

/// Whether an answer is long enough to be shown.
pub fn answer_is_complete(kind: AnswerKind, resp: &[u8]) -> (r: bool)
    ensures
        r == (resp@.len() >= answer_len(kind)),
{
    let need: usize = match kind {
        AnswerKind::Version => 9,
        AnswerKind::Profile => 2,
        AnswerKind::Debounce => 2,
        AnswerKind::Led => 8,
        AnswerKind::Options => 1,
        AnswerKind::Features => 11,
        AnswerKind::Sleep => 3,
        AnswerKind::Other => 1,
    };
    resp.len() >= need
}

/// The first line of an answer.
pub open spec fn heading_line(echo: u8, name: Seq<char>) -> Seq<char> {
    "\nResponse (0x"@ + hex2_lower(echo) + " = "@ + name + "):"@
}

/// The lines of a version answer.
pub open spec fn version_lines(d: Seq<u8>) -> Seq<Seq<char>> {
    let id = le32(d[1], d[2], d[3], d[4]);
    let version = le16(d[7], d[8]) as nat;
    seq![
        "  Device ID:  "@ + dec(id as nat) + " (0x"@ + hex_upper_min4(id) + ")"@,
        "  Version:    "@ + dec(version) + " (v"@ + dec(version / 100) + "."@ + dec2(version % 100)
            + ")"@,
    ]
}

/// The lines of an LED answer. `mask` selects the part of the option byte that says
/// whether colors cycle.
pub open spec fn led_lines(d: Seq<u8>, mode_name: Seq<char>, mask: u8) -> Seq<Seq<char>> {
    let lines = seq![
        "  LED Mode:   "@ + dec(d[1] as nat) + " ("@ + mode_name + ")"@,
        "  Brightness: "@ + dec(d[2] as nat) + "/4"@,
        "  Speed:      "@ + dec(wire_speed(d[3]) as nat) + "/4"@,
        "  Color RGB:  ("@ + dec(d[5] as nat) + ", "@ + dec(d[6] as nat) + ", "@ + dec(d[7] as nat)
            + ") #"@ + hex2_upper(d[5]) + hex2_upper(d[6]) + hex2_upper(d[7]),
    ];
    if d[4] & mask == DAZZLE_ON {
        lines.push("  Dazzle:     ON (rainbow cycle)"@)
    } else {
        lines
    }
}

/// The lines of an options answer.
pub open spec fn option_lines(d: Seq<u8>) -> Seq<Seq<char>> {
    let o = KeyboardOptions::decoded(d.skip(1));
    seq![
        "  OS Mode:    "@ + KeyboardOptions::os_name(o.os_mode),
        "  Fn Layer:   "@ + dec(o.fn_layer as nat),
        "  Anti-touch: "@ + bool_text(o.anti_mistouch),
        "  RTStab:     "@ + dec((o.rt_stability * 25) as nat) + " ms"@,
        "  WASD Swap:  "@ + bool_text(o.wasd_swap),
    ]
}

/// The name of a precision byte.
pub open spec fn precision_byte_name(byte: u8) -> Seq<char> {
    if byte == 0 {
        "0.1mm"@
    } else if byte == 1 {
        "0.05mm"@
    } else if byte == 2 {
        "0.01mm"@
    } else {
        "unknown"@
    }
}

/// The lines of an answer. `name` is the name of the echoed command, `mode_name` that of
/// the LED mode.
pub open spec fn response_lines(
    kind: AnswerKind,
    d: Seq<u8>,
    name: Seq<char>,
    mode_name: Seq<char>,
    mask: u8,
) -> Seq<Seq<char>> {
    seq![heading_line(d[0], name)] + match kind {
        AnswerKind::Version => version_lines(d),
        AnswerKind::Profile => seq!["  Profile:    "@ + dec(d[1] as nat)],
        AnswerKind::Debounce => seq!["  Debounce:   "@ + dec(d[1] as nat) + " ms"@],
        AnswerKind::Led => led_lines(d, mode_name, mask),
        AnswerKind::Options => option_lines(d),
        AnswerKind::Features => seq![
            "  Features:   "@ + hex_list(d.subrange(1, 11)),
            "  Precision:  "@ + precision_byte_name(d[2]),
        ],
        AnswerKind::Sleep => seq![
            "  Sleep:      "@ + dec(le16(d[1], d[2]) as nat) + " seconds ("@ + dec(
                le16(d[1], d[2]) as nat / 60,
            ) + " min)"@,
        ],
        AnswerKind::Other => seq![
            "  Raw data:   "@ + hex_list(
                d.subrange(
                    0,
                    if d.len() < 16 {
                        d.len() as int
                    } else {
                        16
                    },
                ),
            ),
        ],
    }
}

/// A line that starts with a label.
fn line(label: &str) -> (r: String)
    ensures
        r@ == label@,
{
    label.to_owned()
}

/// The lines of a version answer.
fn show_version(d: &[u8], out: &mut Vec<String>)
    requires
        d@.len() >= 9,
    ensures
        name_views(final(out)@) == name_views(old(out)@) + version_lines(d@),
{
    let id: u32 = double_word(d[1], d[2], d[3], d[4]);
    let version: u16 = word(d[7], d[8]);
    let mut a: String = line("  Device ID:  ");
    push_dec(&mut a, id as u64);
    a.append(" (0x");
    push_hex_upper_min4(&mut a, id);
    a.append(")");
    let mut b: String = line("  Version:    ");
    push_dec(&mut b, version as u64);
    b.append(" (v");
    push_dec(&mut b, (version / 100) as u64);
    b.append(".");
    push_dec2(&mut b, (version % 100) as u64);
    b.append(")");
    assert(seq![a@, b@] =~= version_lines(d@));
    out.push(a);
    out.push(b);
    assert(name_views(out@) =~= name_views(old(out)@) + seq![a@, b@]);
}

/// The lines of an LED answer.
fn show_led(d: &[u8], mode_name: &str, mask: u8, out: &mut Vec<String>)
    requires
        d@.len() >= 8,
    ensures
        name_views(final(out)@) == name_views(old(out)@) + led_lines(d@, mode_name@, mask),
{
    let mut a: String = line("  LED Mode:   ");
    push_dec(&mut a, d[1] as u64);
    a.append(" (");
    a.append(mode_name);
    a.append(")");
    let mut b: String = line("  Brightness: ");
    push_dec(&mut b, d[2] as u64);
    b.append("/4");
    let mut c: String = line("  Speed:      ");
    push_dec(&mut c, speed_to_wire(d[3]) as u64);
    c.append("/4");
    let mut e: String = line("  Color RGB:  (");
    push_dec(&mut e, d[5] as u64);
    e.append(", ");
    push_dec(&mut e, d[6] as u64);
    e.append(", ");
    push_dec(&mut e, d[7] as u64);
    e.append(") #");
    push_hex2_upper(&mut e, d[5]);
    push_hex2_upper(&mut e, d[6]);
    push_hex2_upper(&mut e, d[7]);
    out.push(a);
    out.push(b);
    out.push(c);
    out.push(e);
    let ghost four = seq![a@, b@, c@, e@];
    assert(name_views(out@) =~= name_views(old(out)@) + four);
    if d[4] & mask == DAZZLE_ON {
        let ghost before = out@;
        out.push(line("  Dazzle:     ON (rainbow cycle)"));
        assert(name_views(out@) =~= name_views(old(out)@) + four.push(
            "  Dazzle:     ON (rainbow cycle)"@,
        ));
        assert(four.push("  Dazzle:     ON (rainbow cycle)"@) =~= led_lines(
            d@,
            mode_name@,
            mask,
        ));
    } else {
        assert(four =~= led_lines(d@, mode_name@, mask));
    }
}

/// The lines of an options answer.
fn show_options(d: &[u8], out: &mut Vec<String>)
    requires
        d@.len() >= 1,
    ensures
        name_views(final(out)@) == name_views(old(out)@) + option_lines(d@),
{
    let body: Vec<u8> = sub_bytes(d, 1, d.len());
    assert(body@ =~= d@.skip(1));
    let o: KeyboardOptions = KeyboardOptions::from_bytes(body.as_slice());
    let mut a: String = line("  OS Mode:    ");
    a.append(o.os_mode_name());
    let mut b: String = line("  Fn Layer:   ");
    push_dec(&mut b, o.fn_layer as u64);
    let mut c: String = line("  Anti-touch: ");
    c.append(bool_str(o.anti_mistouch));
    let mut e: String = line("  RTStab:     ");
    push_dec(&mut e, o.rt_stability_ms() as u64);
    e.append(" ms");
    let mut f: String = line("  WASD Swap:  ");
    f.append(bool_str(o.wasd_swap));
    assert(seq![a@, b@, c@, e@, f@] =~= option_lines(d@));
    out.push(a);
    out.push(b);
    out.push(c);
    out.push(e);
    out.push(f);
    assert(name_views(out@) =~= name_views(old(out)@) + seq![a@, b@, c@, e@, f@]);
}

/// Show a command answer: its lines, the first byte being the command echo. The answer
/// must be long enough for its kind.
pub fn format_command_response(
    kind: AnswerKind,
    resp: &[u8],
    name: &str,
    mode_name: &str,
    mask: u8,
) -> (r: Vec<String>)
    requires
        resp@.len() >= answer_len(kind),
    ensures
        name_views(r@) == response_lines(kind, resp@, name@, mode_name@, mask),
{
    let mut out: Vec<String> = Vec::new();
    let mut head: String = line("\nResponse (0x");
    push_hex2_lower(&mut head, resp[0]);
    head.append(" = ");
    head.append(name);
    head.append("):");
    out.push(head);
    assert(name_views(out@) =~= seq![heading_line(resp@[0], name@)]);
    let ghost first = name_views(out@);
    match kind {
        AnswerKind::Version => show_version(resp, &mut out),
        AnswerKind::Profile => {
            let mut a: String = line("  Profile:    ");
            push_dec(&mut a, resp[1] as u64);
            out.push(a);
            assert(name_views(out@) =~= first + seq![a@]);
        },
        AnswerKind::Debounce => {
            let mut a: String = line("  Debounce:   ");
            push_dec(&mut a, resp[1] as u64);
            a.append(" ms");
            out.push(a);
            assert(name_views(out@) =~= first + seq![a@]);
        },
        AnswerKind::Led => show_led(resp, mode_name, mask, &mut out),
        AnswerKind::Options => show_options(resp, &mut out),
        AnswerKind::Features => {
            let mut a: String = line("  Features:   ");
            push_hex_list(&mut a, resp, 1, 11);
            let mut b: String = line("  Precision:  ");
            b.append(FirmwareVersion::precision_byte_str(resp[2]));
            out.push(a);
            out.push(b);
            assert(name_views(out@) =~= first + seq![a@, b@]);
        },
        AnswerKind::Sleep => {
            let secs: u16 = word(resp[1], resp[2]);
            let mut a: String = line("  Sleep:      ");
            push_dec(&mut a, secs as u64);
            a.append(" seconds (");
            push_dec(&mut a, (secs / 60) as u64);
            a.append(" min)");
            out.push(a);
            assert(name_views(out@) =~= first + seq![a@]);
        },
        AnswerKind::Other => {
            let n: usize = if resp.len() < 16 {
                resp.len()
            } else {
                16
            };
            let mut a: String = line("  Raw data:   ");
            push_hex_list(&mut a, resp, 0, n);
            out.push(a);
            assert(name_views(out@) =~= first + seq![a@]);
        },
    }
    out
}

/// The layer that a command works on: that of the key reference if it has a prefix, or
/// else the one that was asked for.
pub fn effective_layer(text: &str, of_reference: Layer, asked_for: Layer) -> (r: Layer)
    ensures
        r == (if has_prefix(lowercased(text@)) {
            of_reference
        } else {
            asked_for
        }),
{
    let low: String = to_lowercase(text);
    if has_layer_prefix(low.as_str()) {
        of_reference
    } else {
        asked_for
    }
}

/// What a remap is about: the key reference that is shown.
pub fn remap_target(tables: &KeyTables, text: &str, key_ref: &KeyRef, layer: Layer) -> (r: KeyRef)
    ensures
        r.index == key_ref.index,
        r.layer == (if has_prefix(lowercased(text@)) {
            key_ref.layer
        } else {
            layer
        }),
        r.position@ == tables.name(key_ref.index.pos as int),
{
    KeyRef::new(tables, key_ref.index, effective_layer(text, key_ref.layer, layer))
}

/// The key and the layer that a text refers to.
pub open spec fn referred(tables: KeyTables, text: Seq<char>) -> Option<(u8, Layer)> {
    reference(lower_names(tables.names@), lowercased(text))
}

/// Whether a key reference is the one that a text stands for, on the layer of its prefix,
/// or without a prefix on `layer`.
pub open spec fn is_target(tables: KeyTables, text: Seq<char>, layer: Layer, target: KeyRef) -> bool {
    &&& referred(tables, text) matches Some((index, own))
    &&& target.index.pos == index
    &&& target.layer == (if has_prefix(lowercased(text)) {
        own
    } else {
        layer
    })
    &&& target.position@ == tables.name(index as int)
}

/// Where a remap stands.
pub enum Remap {
    /// There is no such key.
    UnknownKey,
    /// The action makes no sense.
    BadAction(String),
    /// The key is written.
    Write { target: KeyRef, step: Step<()> },
}

/// Remap a key. A layer prefix of the key takes precedence over `layer`. `to` is the action
/// as it was read.
pub fn remap(
    kb: &KeyboardInterface,
    tables: &KeyTables,
    from: &str,
    to: Result<KeyAction, String>,
    layer: Layer,
    replies: &[Reply],
) -> (r: Remap)
    ensures
        match (referred(*tables, from@), to) {
            (None, _) => r is UnknownKey,
            (Some(_), Err(m)) => r == Remap::BadAction(m),
            (Some(_), Ok(action)) => {
                &&& r matches Remap::Write { target, step }
                &&& is_target(*tables, from@, layer, target)
                &&& step@ == sent(
                    seen(replies@),
                    seq![
                        layer_write(
                            kb.active_profile,
                            target.index.pos,
                            target.layer,
                            action.encoded(),
                        ),
                    ],
                )
            },
        },
{
    let key_ref: KeyRef = match KeyRef::parse(tables, from) {
        Some(k) => k,
        None => return Remap::UnknownKey,
    };
    let action: KeyAction = match to {
        Ok(a) => a,
        Err(m) => return Remap::BadAction(m),
    };
    let target: KeyRef = remap_target(tables, from, &key_ref, layer);
    let step: Step<()> = set_key(kb, target.index, target.layer, &action, replies);
    Remap::Write { target, step }
}

/// Reset a key to its default. A layer prefix of the key takes precedence over `layer`.
/// There is no step if there is no such key.
pub fn reset_key(
    kb: &KeyboardInterface,
    tables: &KeyTables,
    key: &str,
    layer: Layer,
    replies: &[Reply],
) -> (r: Option<(KeyRef, Step<()>)>)
    ensures
        match referred(*tables, key@) {
            None => r is None,
            Some(_) => {
                &&& r matches Some((target, step))
                &&& is_target(*tables, key@, layer, target)
                &&& step@ == sent(
                    seen(replies@),
                    seq![reset_write(*kb, *tables, target.index, target.layer)],
                )
            },
        },
{
    let key_ref: KeyRef = match KeyRef::parse(tables, key) {
        Some(k) => k,
        None => return None,
    };
    let target: KeyRef = remap_target(tables, key, &key_ref, layer);
    let step: Step<()> = crate::keymap::reset_key(kb, tables, target.index, target.layer, replies);
    Some((target, step))
}

/// The announcement of a remap.
pub fn remap_notice(target: &KeyRef, action: &str, layer_name: &str) -> (r: String)
    ensures
        r@ == "Remapping "@ + ref_text(*target) + " (index "@ + dec(target.index.pos as nat)
            + ") to "@ + action@ + " on "@ + layer_name@ + " layer..."@,
{
    let mut out: String = line("Remapping ");
    let t: String = target.text();
    out.append(t.as_str());
    out.append(" (index ");
    push_dec(&mut out, target.index.pos as u64);
    out.append(") to ");
    out.append(action);
    out.append(" on ");
    out.append(layer_name);
    out.append(" layer...");
    out
}

/// A key reference as text.
pub open spec fn ref_text(k: KeyRef) -> Seq<char> {
    if k.layer == Layer::Base {
        k.position@
    } else {
        k.layer.short_name() + "+"@ + k.position@
    }
}

/// What remains to be said of a remap or a reset.
pub open spec fn outcome_text(
    target: KeyRef,
    done: Seq<char>,
    failed: Seq<char>,
    result: Result<(), ErrorView>,
) -> Seq<char> {
    match result {
        Ok(()) => ref_text(target) + done,
        Err(e) => failed + error_text(e),
    }
}

/// The message of an error.
pub open spec fn error_text(e: ErrorView) -> Seq<char> {
    match e {
        ErrorView::NotSupported(m) => m,
        ErrorView::UnexpectedResponse(m) => m,
        ErrorView::InvalidParameter(m) => m,
        ErrorView::Transport(m) => m,
    }
}

/// What remains to be said of a remap.
pub fn remap_outcome(target: &KeyRef, action: &str, result: &Result<(), KeyboardError>) -> (r: String)
    ensures
        r@ == outcome_text(
            *target,
            " remapped to "@ + action@,
            "Failed to remap key: "@,
            match *result {
                Ok(()) => Ok(()),
                Err(e) => Err(e@),
            },
        ),
{
    match result {
        Ok(()) => {
            let mut out: String = target.text();
            out.append(" remapped to ");
            out.append(action);
            assert(out@ =~= ref_text(*target) + (" remapped to "@ + action@));
            out
        },
        Err(e) => {
            let mut out: String = line("Failed to remap key: ");
            out.append(e.message());
            out
        },
    }
}

/// The announcement of a reset.
pub fn reset_notice(target: &KeyRef, layer_name: &str) -> (r: String)
    ensures
        r@ == "Resetting "@ + ref_text(*target) + " (index "@ + dec(target.index.pos as nat)
            + ") on "@ + layer_name@ + "..."@,
{
    let mut out: String = line("Resetting ");
    let t: String = target.text();
    out.append(t.as_str());
    out.append(" (index ");
    push_dec(&mut out, target.index.pos as u64);
    out.append(") on ");
    out.append(layer_name);
    out.append("...");
    out
}

/// What remains to be said of a reset.
pub fn reset_outcome(target: &KeyRef, result: &Result<(), KeyboardError>) -> (r: String)
    ensures
        r@ == outcome_text(
            *target,
            " reset to default"@,
            "Failed to reset key: "@,
            match *result {
                Ok(()) => Ok(()),
                Err(e) => Err(e@),
            },
        ),
{
    match result {
        Ok(()) => {
            let mut out: String = target.text();
            out.append(" reset to default");
            out
        },
        Err(e) => {
            let mut out: String = line("Failed to reset key: ");
            out.append(e.message());
            out
        },
    }
}

/// The usage of a key in a keymatrix layer: the third of its four bytes, zero where the
/// layer does not reach.
pub open spec fn usage_at(matrix: Seq<u8>, key: u8) -> u8 {
    byte_at(matrix, key * 4 + 2)
}

/// Where a swap stands.
pub enum Swap {
    /// Reading the current bindings: this request is next.
    Read(Request),
    /// The current bindings could not be read.
    ReadFailed(KeyboardError),
    /// Writing the keys, which had these usages: this request is next.
    Write(Request, HidUsage, HidUsage),
    /// A write failed.
    WriteFailed(KeyboardError),
    /// The keys are swapped; these were their usages.
    Done(HidUsage, HidUsage),
}

/// A [`Swap`] as contracts see it.
pub enum SwapView {
    Read(RequestView),
    ReadFailed(ErrorView),
    Write(RequestView, HidUsage, HidUsage),
    WriteFailed(ErrorView),
    Done(HidUsage, HidUsage),
}

impl View for Swap {
    type V = SwapView;

    open spec fn view(&self) -> SwapView {
        match *self {
            Swap::Read(r) => SwapView::Read(r@),
            Swap::ReadFailed(e) => SwapView::ReadFailed(e@),
            Swap::Write(r, a, b) => SwapView::Write(r@, a, b),
            Swap::WriteFailed(e) => SwapView::WriteFailed(e@),
            Swap::Done(a, b) => SwapView::Done(a, b),
        }
    }
}

/// The requests that swap two keys.
pub open spec fn swap_writes(profile: Profile, matrix: Seq<u8>, key_a: u8, key_b: u8) -> Seq<
    RequestView,
> {
    seq![
        usage_write(profile, key_a, usage_at(matrix, key_b), true, KeymatrixLayer::Layer0),
        usage_write(profile, key_b, usage_at(matrix, key_a), true, KeymatrixLayer::Layer0),
    ]
}

/// Swapping two keys: read the base layer, and write each key the other's usage.
pub open spec fn swapped(
    cmd: u8,
    profile: Profile,
    key_a: u8,
    key_b: u8,
    replies: Seq<ReplyView>,
) -> SwapView {
    match keymatrix_read(
        cmd,
        profile,
        KeymatrixLayer::Layer0,
        KEYMATRIX_PAGES as nat,
        replies,
        0,
    ) {
        PartView::Ask(r) => SwapView::Read(r),
        PartView::Failed { error, .. } => SwapView::ReadFailed(error),
        PartView::Found { value: matrix, next } => {
            let a = HidUsage { code: usage_at(matrix, key_a) };
            let b = HidUsage { code: usage_at(matrix, key_b) };
            match sent_from(swap_writes(profile, matrix, key_a, key_b), replies, next) {
                PartView::Ask(r) => SwapView::Write(r, a, b),
                PartView::Failed { error, .. } => SwapView::WriteFailed(error),
                PartView::Found { .. } => SwapView::Done(a, b),
            }
        },
    }
}

/// Swap the keys at two positions of a profile. Only the base layer is touched.
pub fn swap_positions(
    kb: &KeyboardInterface,
    key_a: MatrixPos,
    key_b: MatrixPos,
    profile: Profile,
    replies: &[Reply],
) -> (r: Swap)
    ensures
        r@ == swapped(
            kb.commands.get_keymatrix,
            profile,
            key_a.pos,
            key_b.pos,
            seen(replies@),
        ),
{
    match kb.keymatrix_part(profile, KeymatrixLayer::Layer0, KEYMATRIX_PAGES, replies, 0) {
        Part::Ask(request) => Swap::Read(request),
        Part::Failed { error, .. } => Swap::ReadFailed(error),
        Part::Found { value: matrix, next } => {
            let code_a: u8 = get_byte(matrix.as_slice(), key_a.pos as usize * 4 + 2);
            let code_b: u8 = get_byte(matrix.as_slice(), key_b.pos as usize * 4 + 2);
            let mut list: Vec<Request> = Vec::new();
            list.push(
                write_usage(profile, key_a.pos, code_b, true, KeymatrixLayer::Layer0),
            );
            list.push(
                write_usage(profile, key_b.pos, code_a, true, KeymatrixLayer::Layer0),
            );
            assert(requests(list@) =~= swap_writes(profile, matrix@, key_a.pos, key_b.pos));
            let a: HidUsage = HidUsage { code: code_a };
            let b: HidUsage = HidUsage { code: code_b };
            match send_from(list, replies, next) {
                Part::Ask(request) => Swap::Write(request, a, b),
                Part::Failed { error, .. } => Swap::WriteFailed(error),
                Part::Found { .. } => Swap::Done(a, b),
            }
        },
    }
}

/// Which of two keys is unknown.
#[derive(Debug, Clone, Copy, PartialEq, Eq, Structural)]
pub enum UnknownKey {
    First,
    Second,
}

/// Swap two keys of a profile, whatever layers they are referred to on.
pub fn swap(
    kb: &KeyboardInterface,
    tables: &KeyTables,
    key1: &str,
    key2: &str,
    profile: Profile,
    replies: &[Reply],
) -> (r: Result<Swap, UnknownKey>)
    ensures
        match (referred(*tables, key1@), referred(*tables, key2@)) {
            (None, _) => r == Err::<Swap, UnknownKey>(UnknownKey::First),
            (Some(_), None) => r == Err::<Swap, UnknownKey>(UnknownKey::Second),
            (Some((a, _)), Some((b, _))) => r matches Ok(s) && s@ == swapped(
                kb.commands.get_keymatrix,
                profile,
                a,
                b,
                seen(replies@),
            ),
        },
{
    let a: KeyRef = match KeyRef::parse(tables, key1) {
        Some(k) => k,
        None => return Err(UnknownKey::First),
    };
    let b: KeyRef = match KeyRef::parse(tables, key2) {
        Some(k) => k,
        None => return Err(UnknownKey::Second),
    };
    Ok(swap_positions(kb, a.index, b.index, profile, replies))
}

/// The announcement of a swap, with the keys' names and those of their usages.
pub fn swap_notice(name_a: &str, action_a: &str, name_b: &str, action_b: &str) -> (r: String)
    ensures
        r@ == "Swapping "@ + name_a@ + " ("@ + action_a@ + ") <-> "@ + name_b@ + " ("@ + action_b@
            + ")..."@,
{
    let mut out: String = line("Swapping ");
    out.append(name_a);
    out.append(" (");
    out.append(action_a);
    out.append(") <-> ");
    out.append(name_b);
    out.append(" (");
    out.append(action_b);
    out.append(")...");
    out
}

/// A keymatrix layer after a key was given a plain usage.
pub open spec fn with_usage(matrix: Seq<u8>, key: u8, code: u8) -> Seq<u8> {
    matrix.take(key * 4) + seq![0u8, 0u8, code, 0u8] + matrix.skip(key * 4 + 4)
}

/// A keymatrix layer after two keys were swapped.
pub open spec fn after_swap(matrix: Seq<u8>, key_a: u8, key_b: u8) -> Seq<u8> {
    with_usage(
        with_usage(matrix, key_a, usage_at(matrix, key_b)),
        key_b,
        usage_at(matrix, key_a),
    )
}

/// A swap exchanges the usages of two keys and leaves every other key alone; swapping
/// again gives the usages back.
pub proof fn swapping_exchanges_usages(matrix: Seq<u8>, key_a: u8, key_b: u8, other: u8)
    requires
        key_a != key_b,
        key_a * 4 + 4 <= matrix.len(),
        key_b * 4 + 4 <= matrix.len(),
        other != key_a,
        other != key_b,
    ensures
        usage_at(after_swap(matrix, key_a, key_b), key_a) == usage_at(matrix, key_b),
        usage_at(after_swap(matrix, key_a, key_b), key_b) == usage_at(matrix, key_a),
        usage_at(after_swap(matrix, key_a, key_b), other) == usage_at(matrix, other),
        ({
            let twice = after_swap(after_swap(matrix, key_a, key_b), key_a, key_b);
            &&& usage_at(twice, key_a) == usage_at(matrix, key_a)
            &&& usage_at(twice, key_b) == usage_at(matrix, key_b)
        }),
{
    lemma_with_usage(matrix, key_a, usage_at(matrix, key_b), key_b);
    lemma_with_usage(matrix, key_a, usage_at(matrix, key_b), other);
    let once = with_usage(matrix, key_a, usage_at(matrix, key_b));
    lemma_with_usage(once, key_b, usage_at(matrix, key_a), key_a);
    lemma_with_usage(once, key_b, usage_at(matrix, key_a), other);
    let m = after_swap(matrix, key_a, key_b);
    lemma_with_usage(m, key_a, usage_at(m, key_b), key_b);
    let mm = with_usage(m, key_a, usage_at(m, key_b));
    lemma_with_usage(mm, key_b, usage_at(m, key_a), key_a);
}

/// Giving a key a usage changes that key only.
proof fn lemma_with_usage(matrix: Seq<u8>, key: u8, code: u8, other: u8)
    requires
        key != other,
        key * 4 + 4 <= matrix.len(),
    ensures
        with_usage(matrix, key, code).len() == matrix.len(),
        usage_at(with_usage(matrix, key, code), key) == code,
        usage_at(with_usage(matrix, key, code), other) == usage_at(matrix, other),
{
    let new = with_usage(matrix, key, code);
    assert(new.len() == matrix.len());
    assert(new[key * 4 + 2] == code);
    let p = other * 4 + 2;
    if p < matrix.len() {
        if p < key * 4 {
            assert(new[p] == matrix[p]);
        } else {
            assert(p >= key * 4 + 4);
            assert(new[p] == matrix[p]);
        }
    }
}

/// What it takes to run a command on a profile.
#[derive(Debug, Clone, Copy, PartialEq, Eq, Structural)]
pub enum ProfilePlan {
    /// The profile is active already.
    Run,
    /// Switch to it, run, and switch back.
    Switch { from: Profile, to: Profile },
}

/// What it takes to run a command on a profile, given the one that the board runs. If
/// that cannot be told, no switch is made.
pub fn plan_profile(wanted: Profile, current: Option<Profile>) -> (r: ProfilePlan)
    ensures
        r == (match current {
            Some(p) => if p == wanted {
                ProfilePlan::Run
            } else {
                ProfilePlan::Switch { from: p, to: wanted }
            },
            None => ProfilePlan::Run,
        }),
{
    match current {
        Some(p) => if p == wanted {
            ProfilePlan::Run
        } else {
            ProfilePlan::Switch { from: p, to: wanted }
        },
        None => ProfilePlan::Run,
    }
}

/// The profile that commands work on: the one that was asked for, or else the one that
/// the board runs. There is no safe default.
pub fn choose_profile(forced: Option<Profile>, queried: Result<Profile, KeyboardError>) -> (r: Result<
    Profile,
    String,
>)
    ensures
        match forced {
            Some(p) => r == Ok::<Profile, String>(p),
            None => match queried {
                Ok(p) => r == Ok::<Profile, String>(p),
                Err(e) => r matches Err(m) && m@ == "could not determine the active profile ("@
                    + error_text(e@) + "); pass --profile to choose one"@,
            },
        },
{
    match forced {
        Some(p) => Ok(p),
        None => match queried {
            Ok(p) => Ok(p),
            Err(e) => {
                let mut m: String = line("could not determine the active profile (");
                m.append(e.message());
                m.append("); pass --profile to choose one");
                Err(m)
            },
        },
    }
}

/// What a first and a second interrupt do, and which profile is still to be restored.
pub struct InterruptState {
    /// Cleared by the first interrupt.
    pub running: bool,
    /// Profile that the keyboard must be put back on.
    pub pending: Option<Profile>,
}

/// What to do about an interrupt.
#[derive(Debug, Clone, Copy, PartialEq, Eq, Structural)]
pub enum InterruptAction {
    /// Let the current operation finish.
    Finish,
    /// Exit now, naming the profile that was not restored.
    Exit(Option<Profile>),
}

impl InterruptState {
    /// Nothing interrupted, nothing to restore.
    pub fn new() -> (r: InterruptState)
        ensures
            r.running,
            r.pending is None,
    {
        InterruptState { running: true, pending: None }
    }

    /// The first interrupt lets the operation finish; the second gives up.
    pub fn on_interrupt(&mut self) -> (r: InterruptAction)
        ensures
            !final(self).running,
            old(self).running ==> r == InterruptAction::Finish && final(self).pending == old(self).pending,
            !old(self).running ==> r == InterruptAction::Exit(old(self).pending) && final(self).pending is None,
    {
        if self.running {
            self.running = false;
            return InterruptAction::Finish;
        }
        let pending: Option<Profile> = self.pending;
        self.pending = None;
        InterruptAction::Exit(pending)
    }

    /// A command switched the profile.
    pub fn switched_from(&mut self, restore_to: Profile)
        ensures
            final(self).running == old(self).running,
            final(self).pending == Some(restore_to),
    {
        self.pending = Some(restore_to);
    }

    /// The profile is back, or beyond helping.
    pub fn restored(&mut self)
        ensures
            final(self).running == old(self).running,
            final(self).pending is None,
    {
        self.pending = None;
    }
}

/// What is said when the profile was restored, or could not be.
pub fn restore_notice(restore_to: Profile, result: &Result<(), KeyboardError>) -> (r: String)
    ensures
        r@ == (match *result {
            Ok(()) => "Restored profile "@ + dec((restore_to.index() + 1) as nat) + "."@,
            Err(e) => "WARNING: could not restore profile "@ + dec(
                (restore_to.index() + 1) as nat,
            ) + ": "@ + error_text(e@)
                + "\nThe keyboard is still on another profile — run `iot_driver set-profile "@
                + dec(restore_to.index() as nat) + "`."@,
        }),
{
    match result {
        Ok(()) => {
            let mut out: String = line("Restored profile ");
            push_dec(&mut out, restore_to.number() as u64);
            out.append(".");
            out
        },
        Err(e) => {
            let mut out: String = line("WARNING: could not restore profile ");
            push_dec(&mut out, restore_to.number() as u64);
            out.append(": ");
            out.append(e.message());
            out.append(
                "\nThe keyboard is still on another profile — run `iot_driver set-profile ",
            );
            push_dec(&mut out, restore_to.get() as u64);
            out.append("`.");
            out
        },
    }
}

/// The announcement of a profile switch.
pub fn switch_notice(from: Profile, to: Profile) -> (r: String)
    ensures
        r@
            == "Trigger settings are stored per profile but carry no profile in the protocol,\nso profile "@
            + dec((to.index() + 1) as nat) + " has to be active while it is edited.\nSwitching "@
            + dec((from.index() + 1) as nat) + " -> "@ + dec((to.index() + 1) as nat) + " …"@,
{
    let mut out: String = line(
        "Trigger settings are stored per profile but carry no profile in the protocol,\nso profile ",
    );
    push_dec(&mut out, to.number() as u64);
    out.append(" has to be active while it is edited.\nSwitching ");
    push_dec(&mut out, from.number() as u64);
    out.append(" -> ");
    push_dec(&mut out, to.number() as u64);
    out.append(" …");
    out
}

/// What is said when the profile could not be switched.
pub fn switch_failure(to: Profile, error: &KeyboardError) -> (r: String)
    ensures
        r@ == "Failed to switch to profile "@ + dec((to.index() + 1) as nat) + ": "@ + error_text(
            error@,
        ),
{
    let mut out: String = line("Failed to switch to profile ");
    push_dec(&mut out, to.number() as u64);
    out.append(": ");
    out.append(error.message());
    out
}

/// What is said on a forced exit that leaves the profile unrestored.
pub fn forced_exit_notice(profile: Profile) -> (r: String)
    ensures
        r@
            == "Exiting without restoring the profile.\nThe keyboard is on another profile — run `iot_driver set-profile "@
            + dec(profile.index() as nat) + "`."@,
{
    let mut out: String = line(
        "Exiting without restoring the profile.\nThe keyboard is on another profile — run `iot_driver set-profile ",
    );
    push_dec(&mut out, profile.get() as u64);
    out.append("`.");
    out
}

/// How packets are printed.
pub struct PrinterConfig {
    pub hex: bool,
    pub all_hid: bool,
    /// Text of the packet filter; every packet if there is none.
    pub filter: Option<String>,
    /// File that the packets are recorded to.
    pub record: Option<String>,
}

/// Decide how packets are printed. They are printed when asked for, and whenever they are
/// recorded.
pub fn create_printer_config(
    monitor: bool,
    hex: bool,
    all_hid: bool,
    filter: Option<String>,
    record: Option<String>,
) -> (r: Option<PrinterConfig>)
    ensures
        r is Some <==> monitor || record is Some,
        r matches Some(c) ==> c == (PrinterConfig { hex, all_hid, filter, record }),
{
    if !monitor && record.is_none() {
        return None;
    }
    Some(PrinterConfig { hex, all_hid, filter, record })
}

/// What every command is given.
pub struct CmdCtx {
    pub printer_config: Option<PrinterConfig>,
    pub device: Option<String>,
    /// Work on this profile instead of the board's active one.
    pub profile: Option<Profile>,
}

impl CmdCtx {
    /// What every command is given.
    pub fn new(
        printer_config: Option<PrinterConfig>,
        device: Option<String>,
        profile: Option<Profile>,
    ) -> (r: CmdCtx)
        ensures
            r == (CmdCtx { printer_config, device, profile }),
    {
        CmdCtx { printer_config, device, profile }
    }

    /// The device that was asked for.
    pub fn device_selector(&self) -> (r: Option<&str>)
        ensures
            match r {
                Some(s) => self.device matches Some(d) && s@ == d@,
                None => self.device is None,
            },
    {
        match &self.device {
            Some(d) => Some(d.as_str()),
            None => None,
        }
    }
}

/// Width of the progress bar.
pub const PROGRESS_WIDTH: usize = 20;

/// How much of the progress bar is filled in a stage. The named stage is in flight.
pub open spec fn progress_filled(done: nat, total: nat) -> nat {
    (done + 1) * PROGRESS_WIDTH as nat / total
}

/// The progress line of a stage.
pub open spec fn progress_text(stage: LoadStage) -> Seq<char> {
    let filled = progress_filled(stage.done as nat, stage.total as nat);
    "\r\x1b[2Kreading "@ + stage.label@ + " ("@ + dec((stage.done + 1) as nat) + "/"@ + dec(
        stage.total as nat,
    ) + ")"@ + " ["@ + repeated('#', filled) + repeated('·', (PROGRESS_WIDTH - filled) as nat)
        + "]"@
}

/// Append one character over and over.
fn push_repeated(out: &mut String, one: &str, count: usize)
    requires
        one@.len() == 1,
    ensures
        final(out)@ == old(out)@ + repeated(one@[0], count as nat),
{
    let ghost head = out@;
    let mut i: usize = 0;
    assert(out@ =~= head + repeated(one@[0], 0));
    while i < count
        invariant
            i <= count,
            one@.len() == 1,
            out@ == head + repeated(one@[0], i as nat),
        decreases count - i,
    {
        out.append(one);
        assert(out@ =~= head + repeated(one@[0], (i + 1) as nat));
        i += 1;
    }
}

/// The progress line of a stage.
pub fn progress_line(stage: &LoadStage) -> (r: String)
    requires
        stage.done < stage.total,
        (stage.done + 1) * PROGRESS_WIDTH <= usize::MAX,
    ensures
        r@ == progress_text(*stage),
{
    let filled: usize = (stage.done + 1) * PROGRESS_WIDTH / stage.total;
    assert(filled <= PROGRESS_WIDTH) by (nonlinear_arith)
        requires
            filled == (stage.done + 1) * 20 / stage.total as int,
            stage.done < stage.total,
            PROGRESS_WIDTH == 20,
    ;
    let mut out: String = line("\r\x1b[2Kreading ");
    let t: String = stage.text();
    out.append(t.as_str());
    out.append(" [");
    proof {
        reveal_strlit("#");
        reveal_strlit("·");
    }
    push_repeated(&mut out, "#", filled);
    push_repeated(&mut out, "·", PROGRESS_WIDTH - filled);
    out.append("]");
    assert(out@ =~= progress_text(*stage));
    out
}

/// The bar is never fuller than its width, and full in the last stage.
pub proof fn progress_bar_fits(done: nat, total: nat)
    requires
        done < total,
    ensures
        progress_filled(done, total) <= PROGRESS_WIDTH,
        done + 1 == total ==> progress_filled(done, total) == PROGRESS_WIDTH,
{
    assert((done + 1) * 20 / total <= 20) by (nonlinear_arith)
        requires
            done < total,
    ;
    if done + 1 == total {
        assert(total * 20 / total == 20) by (nonlinear_arith)
            requires
                total > 0,
        ;
    }
}

} // verus!
