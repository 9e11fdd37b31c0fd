//! Reading and writing the trigger tables of keyboards with magnetic switches.

use crate::bindings::{
    config_read, keymatrix_pages, keymatrix_write, with_config, write_config, MAGNETISM_SETTLE_MS,
};
use crate::bits::{high_byte, le_bytes, low_byte, sub_bytes};
use crate::error::{unsupported, KeyboardError};
use crate::exchange::{
    asked, block, blocks_grow, blocks_start_fresh, decoded, first, fresh, grows,
    pages_make_up_the_store, read_block, seen, send_all, send_from, send_one, sent, sent_from, tells_pages, whole, Answer, Part, PartView, Reply, ReplyView, Step,
    StepView,
};
use crate::keyboard::{command, command_request, KeyboardInterface};
use crate::macros::{page_bytes, page_count};
use crate::magnetism::{
    blob_modes, byte_at, decode_words_padded, get_byte, get_word, resolve_slot0, set_rapid_trigger,
    slot0, with_rapid_trigger, word_at, words, words_padded, DksConfig, DksView, KeyMode,
    KeyTriggerSettings, ModeByte, TriggerSettings, TriggerView,
};
use crate::protocol::{
    raw, requests, ChecksumType, CommandTable, Delivery, KeymatrixLayer, Profile, Request,
    RequestView, INPUT_REPORT_SIZE,
};
use crate::settings::{flag, TravelDepth};
use vstd::prelude::*;

verus! {

/// Wire step of the Mod-Tap decision time in milliseconds.
pub const MODTAP_TIME_STEP_MS: u16 = 10;

/// Partner index that means "this key has no Snap-Tap pair".
pub const SNAPTAP_UNBOUND: u8 = 0xFF;

/// Pause in milliseconds behind a table write that does not save.
pub const MAGNETISM_PAGE_MS: u64 = 30;

/// Bytes of one page of a trigger table on the way to the keyboard.
pub const MAGNETISM_PAGE_SIZE: usize = 56;

/// Pages of the Dynamic Keystroke blob.
pub const DKS_BLOB_PAGES: usize = 8;

/// The requests for the pages of a trigger table.
pub open spec fn table_pages(c: CommandTable, sub_cmd: u8, num_pages: nat) -> Seq<RequestView> {
    Seq::new(
        num_pages,
        |i: int|
            raw(
                c.get_multi_magnetism,
                seq![sub_cmd, 1u8, (i % 256) as u8],
                ChecksumType::Bit7,
                Delivery::QueryPage(INPUT_REPORT_SIZE),
            ),
    )
}

/// The request that writes one key's entry of a trigger table. The last of a batch saves
/// and takes longer.
pub open spec fn key_write(
    c: CommandTable,
    sub_cmd: u8,
    key_index: u8,
    is_final: bool,
    payload: Seq<u8>,
) -> RequestView {
    raw(
        c.set_multi_magnetism,
        seq![sub_cmd, 0u8, key_index, flag(is_final), 0u8, 0u8, 0u8] + payload,
        ChecksumType::Bit7,
        Delivery::SendThenWait(
            if is_final {
                MAGNETISM_SETTLE_MS
            } else {
                MAGNETISM_PAGE_MS
            },
        ),
    )
}

/// The requests that write a whole trigger table, in pages of 56 bytes. The last saves.
pub open spec fn table_write(c: CommandTable, sub_cmd: u8, bytes: Seq<u8>) -> Seq<RequestView> {
    let n = page_count(bytes.len(), MAGNETISM_PAGE_SIZE as nat);
    Seq::new(
        n,
        |i: int|
            raw(
                c.set_multi_magnetism,
                seq![sub_cmd, 1u8, (i % 256) as u8, flag(i == n - 1), 0u8, 0u8, 0u8] + page_bytes(
                    bytes,
                    i,
                    MAGNETISM_PAGE_SIZE as int,
                ),
                ChecksumType::Bit7,
                Delivery::SendThenWait(MAGNETISM_PAGE_MS),
            ),
    )
}

/// The bytes of a list of words, low byte first.
pub open spec fn word_bytes(values: Seq<u16>) -> Seq<u8> {
    Seq::new(2 * values.len(), |i: int| le_bytes(values[i / 2])[i % 2])
}

/// The first `count` elements, or all if there are fewer.
pub open spec fn up_to<T>(s: Seq<T>, count: nat) -> Seq<T> {
    if s.len() < count {
        s
    } else {
        s.take(count as int)
    }
}

/// How many pages of 64 bytes hold `len` bytes.
pub open spec fn pages_of(len: nat) -> nat {
    page_count(len, INPUT_REPORT_SIZE as nat)
}

/// A table that may be missing: a failed read leaves it empty.
pub open spec fn optional<V>(part: PartView<Seq<V>>) -> PartView<Seq<V>> {
    match part {
        PartView::Failed { next, .. } => PartView::Found { value: Seq::empty(), next },
        other => other,
    }
}

/// Reading the two deadzone tables behind the other trigger tables. Older firmware lacks
/// them; a failed read leaves them empty.
pub open spec fn deadzones_read(
    c: CommandTable,
    key_count: u8,
    replies: Seq<ReplyView>,
    at: nat,
) -> PartView<(Seq<u8>, Seq<u8>)> {
    let pages = pages_of(2 * key_count as nat);
    match optional(block(table_pages(c, c.magnetism.bottom_deadzone, pages), replies, at)) {
        PartView::Ask(r) => PartView::Ask(r),
        PartView::Failed { error, next } => PartView::Failed { error, next },
        PartView::Found { value: bottom, next } => match optional(
            block(table_pages(c, c.magnetism.top_deadzone, pages), replies, next),
        ) {
            PartView::Ask(r) => PartView::Ask(r),
            PartView::Failed { error, next } => PartView::Failed { error, next },
            PartView::Found { value: top, next } => PartView::Found { value: (bottom, top), next },
        },
    }
}

/// Reading two tables of words, one after the other.
pub open spec fn two_tables_read(
    c: CommandTable,
    first_sub: u8,
    second_sub: u8,
    key_count: u8,
    replies: Seq<ReplyView>,
    at: nat,
) -> PartView<(Seq<u8>, Seq<u8>)> {
    let pages = pages_of(2 * key_count as nat);
    match block(table_pages(c, first_sub, pages), replies, at) {
        PartView::Ask(r) => PartView::Ask(r),
        PartView::Failed { error, next } => PartView::Failed { error, next },
        PartView::Found { value: a, next } => match block(
            table_pages(c, second_sub, pages),
            replies,
            next,
        ) {
            PartView::Ask(r) => PartView::Ask(r),
            PartView::Failed { error, next } => PartView::Failed { error, next },
            PartView::Found { value: b, next } => PartView::Found { value: (a, b), next },
        },
    }
}

/// Reading all trigger tables from the reply `at` on: the modes, the four travel tables,
/// and the deadzones.
pub open spec fn triggers_read(
    c: CommandTable,
    has_magnetism: bool,
    key_count: u8,
    replies: Seq<ReplyView>,
    at: nat,
) -> PartView<TriggerView> {
    let n = key_count as nat;
    let m = c.magnetism;
    if !has_magnetism {
        PartView::Failed {
            error: unsupported("Device does not have Hall Effect switches"@),
            next: at,
        }
    } else {
        match block(table_pages(c, m.key_mode, pages_of(n)), replies, at) {
            PartView::Ask(r) => PartView::Ask(r),
            PartView::Failed { error, next } => PartView::Failed { error, next },
            PartView::Found { value: modes, next } => match two_tables_read(
                c,
                m.press_travel,
                m.lift_travel,
                key_count,
                replies,
                next,
            ) {
                PartView::Ask(r) => PartView::Ask(r),
                PartView::Failed { error, next } => PartView::Failed { error, next },
                PartView::Found { value: travel, next } => match two_tables_read(
                    c,
                    m.rt_press,
                    m.rt_lift,
                    key_count,
                    replies,
                    next,
                ) {
                    PartView::Ask(r) => PartView::Ask(r),
                    PartView::Failed { error, next } => PartView::Failed { error, next },
                    PartView::Found { value: rt, next } => match deadzones_read(
                        c,
                        key_count,
                        replies,
                        next,
                    ) {
                        PartView::Ask(r) => PartView::Ask(r),
                        PartView::Failed { error, next } => PartView::Failed { error, next },
                        PartView::Found { value: dz, next } => PartView::Found {
                            value: TriggerView {
                                key_count: n,
                                press_travel: words(travel.0, n),
                                lift_travel: words(travel.1, n),
                                rt_press: words(rt.0, n),
                                rt_lift: words(rt.1, n),
                                key_modes: modes,
                                bottom_deadzone: words(dz.0, n),
                                top_deadzone: words(dz.1, n),
                            },
                            next,
                        },
                    },
                },
            },
        }
    }
}

/// One more reply carries a pair of tables further, or leaves it as it is.
proof fn lemma_two_tables_grow(
    c: CommandTable,
    first_sub: u8,
    second_sub: u8,
    key_count: u8,
    replies: Seq<ReplyView>,
    more: ReplyView,
    at: nat,
)
    requires
        at <= replies.len(),
    ensures
        grows(
            two_tables_read(c, first_sub, second_sub, key_count, replies, at),
            two_tables_read(c, first_sub, second_sub, key_count, replies.push(more), at),
            replies.len(),
        ),
{
    let pages = pages_of(2 * key_count as nat);
    let first = table_pages(c, first_sub, pages);
    let second = table_pages(c, second_sub, pages);
    blocks_grow(first, replies, more, at);
    blocks_start_fresh(second, replies.push(more));
    if let PartView::Found { next, .. } = block(first, replies, at) {
        blocks_grow(second, replies, more, next);
    }
}

/// A pair of tables starts where the replies end.
proof fn lemma_two_tables_fresh(
    c: CommandTable,
    first_sub: u8,
    second_sub: u8,
    key_count: u8,
    replies: Seq<ReplyView>,
)
    ensures
        fresh(
            two_tables_read(c, first_sub, second_sub, key_count, replies, replies.len()),
            replies.len(),
        ),
{
    let pages = pages_of(2 * key_count as nat);
    blocks_start_fresh(table_pages(c, first_sub, pages), replies);
    blocks_start_fresh(table_pages(c, second_sub, pages), replies);
}

/// One more reply carries the deadzones further, or leaves them as they are.
proof fn lemma_deadzones_grow(
    c: CommandTable,
    key_count: u8,
    replies: Seq<ReplyView>,
    more: ReplyView,
    at: nat,
)
    requires
        at <= replies.len(),
    ensures
        grows(
            deadzones_read(c, key_count, replies, at),
            deadzones_read(c, key_count, replies.push(more), at),
            replies.len(),
        ),
        fresh(deadzones_read(c, key_count, replies, replies.len()), replies.len()),
{
    let pages = pages_of(2 * key_count as nat);
    let bottom = table_pages(c, c.magnetism.bottom_deadzone, pages);
    let top = table_pages(c, c.magnetism.top_deadzone, pages);
    blocks_grow(bottom, replies, more, at);
    blocks_start_fresh(bottom, replies);
    blocks_start_fresh(top, replies);
    blocks_start_fresh(top, replies.push(more));
    if let PartView::Found { next, .. } = optional(block(bottom, replies, at)) {
        blocks_grow(top, replies, more, next);
    }
}

/// A read of the trigger tables asks where the replies end, unless there is nothing to
/// read.
pub proof fn trigger_reads_start_fresh(
    c: CommandTable,
    has_magnetism: bool,
    key_count: u8,
    replies: Seq<ReplyView>,
)
    ensures
        fresh(triggers_read(c, has_magnetism, key_count, replies, replies.len()), replies.len()),
        has_magnetism && key_count > 0 ==> triggers_read(
            c,
            has_magnetism,
            key_count,
            replies,
            replies.len(),
        ) is Ask,
{
    let m = c.magnetism;
    let modes = table_pages(c, m.key_mode, pages_of(key_count as nat));
    assert(key_count > 0 ==> modes.len() > 0);
    blocks_start_fresh(modes, replies);
    lemma_two_tables_fresh(c, m.press_travel, m.lift_travel, key_count, replies);
    lemma_two_tables_fresh(c, m.rt_press, m.rt_lift, key_count, replies);
    lemma_deadzones_grow(c, key_count, replies, Ok(Seq::empty()), replies.len());
}

/// One more reply carries a read of the trigger tables further, or leaves it as it is if
/// it was through.
pub proof fn trigger_reads_grow(
    c: CommandTable,
    has_magnetism: bool,
    key_count: u8,
    replies: Seq<ReplyView>,
    more: ReplyView,
    at: nat,
)
    requires
        at <= replies.len(),
    ensures
        grows(
            triggers_read(c, has_magnetism, key_count, replies, at),
            triggers_read(c, has_magnetism, key_count, replies.push(more), at),
            replies.len(),
        ),
{
    let m = c.magnetism;
    let all = replies.push(more);
    let modes = table_pages(c, m.key_mode, pages_of(key_count as nat));
    blocks_grow(modes, replies, more, at);
    lemma_two_tables_fresh(c, m.press_travel, m.lift_travel, key_count, all);
    lemma_two_tables_fresh(c, m.rt_press, m.rt_lift, key_count, all);
    lemma_deadzones_grow(c, key_count, all, more, all.len());
    if let PartView::Found { next, .. } = block(modes, replies, at) {
        lemma_two_tables_grow(c, m.press_travel, m.lift_travel, key_count, replies, more, next);
        if let PartView::Found { next, .. } = two_tables_read(
            c,
            m.press_travel,
            m.lift_travel,
            key_count,
            replies,
            next,
        ) {
            lemma_two_tables_grow(c, m.rt_press, m.rt_lift, key_count, replies, more, next);
            if let PartView::Found { next, .. } = two_tables_read(
                c,
                m.rt_press,
                m.rt_lift,
                key_count,
                replies,
                next,
            ) {
                lemma_deadzones_grow(c, key_count, replies, more, next);
            }
        }
    }
}

/// Reading the Dynamic Keystroke travel of every key.
pub open spec fn dks_travels_read(
    c: CommandTable,
    key_count: u8,
    replies: Seq<ReplyView>,
    at: nat,
) -> PartView<Seq<u16>> {
    decoded(
        block(
            table_pages(c, c.magnetism.dks_travel, page_count(key_count as nat, 32)),
            replies,
            at,
        ),
        |d: Seq<u8>| Ok(words_padded(d, key_count as nat)),
    )
}

/// Reading the Dynamic Keystroke blob.
pub open spec fn dks_blob_read(c: CommandTable, replies: Seq<ReplyView>, at: nat) -> PartView<
    Seq<u8>,
> {
    block(table_pages(c, c.magnetism.dks_modes, DKS_BLOB_PAGES as nat), replies, at)
}

/// The Mod-Tap times that table bytes stand for.
pub open spec fn modtap_times(d: Seq<u8>, key_count: u8) -> Seq<u16> {
    up_to(d, key_count as nat).map_values(|b: u8| (b * MODTAP_TIME_STEP_MS) as u16)
}

/// Reading the Mod-Tap time of every key.
pub open spec fn modtap_read(
    c: CommandTable,
    key_count: u8,
    replies: Seq<ReplyView>,
    at: nat,
) -> PartView<Seq<u16>> {
    decoded(
        block(table_pages(c, c.magnetism.modtap_time, pages_of(key_count as nat)), replies, at),
        |d: Seq<u8>| Ok(modtap_times(d, key_count)),
    )
}

/// Reading the Snap-Tap partner of every key.
pub open spec fn snaptap_read(
    c: CommandTable,
    key_count: u8,
    replies: Seq<ReplyView>,
    at: nat,
) -> PartView<Seq<u8>> {
    decoded(
        block(table_pages(c, c.magnetism.snaptap_enable, pages_of(key_count as nat)), replies, at),
        |d: Seq<u8>| Ok(up_to(d, key_count as nat)),
    )
}

/// The requests that write one key's trigger settings.
pub open spec fn trigger_writes(c: CommandTable, t: KeyTriggerSettings) -> Seq<RequestView> {
    seq![
        key_write(c, c.magnetism.press_travel, t.key_index, false, le_bytes(t.actuation)),
        key_write(c, c.magnetism.lift_travel, t.key_index, false, le_bytes(t.deactuation)),
        key_write(
            c,
            c.magnetism.key_mode,
            t.key_index,
            true,
            seq![(ModeByte { base: t.mode, rapid_trigger: t.rapid_trigger }).encoded()],
        ),
    ]
}

/// Reading the key configs of the Dynamic Keystroke slots from `got.len()` on.
pub open spec fn slots_read(
    c: CommandTable,
    profile: Profile,
    key_index: u8,
    got: Seq<Seq<u8>>,
    replies: Seq<ReplyView>,
    at: nat,
) -> PartView<Seq<Seq<u8>>>
    decreases 4 - got.len(),
{
    if got.len() >= 4 {
        PartView::Found { value: got, next: at }
    } else {
        match config_read(
            c.get_keymatrix,
            profile,
            KeymatrixLayer::at(got.len() as int),
            key_index,
            replies,
            at,
        ) {
            PartView::Ask(r) => PartView::Ask(r),
            PartView::Failed { error, next } => PartView::Failed { error, next },
            PartView::Found { value, next } => slots_read(
                c,
                profile,
                key_index,
                got.push(value),
                replies,
                next,
            ),
        }
    }
}

/// Reading one key's Dynamic Keystroke settings: its travel, its packed bytes, and the
/// configs of its four slots.
pub open spec fn dks_read(
    c: CommandTable,
    profile: Profile,
    key_count: u8,
    key_index: u8,
    replies: Seq<ReplyView>,
) -> PartView<DksView> {
    match dks_travels_read(c, key_count, replies, 0) {
        PartView::Ask(r) => PartView::Ask(r),
        PartView::Failed { error, next } => PartView::Failed { error, next },
        PartView::Found { value: travels, next } => match dks_blob_read(c, replies, next) {
            PartView::Ask(r) => PartView::Ask(r),
            PartView::Failed { error, next } => PartView::Failed { error, next },
            PartView::Found { value: blob, next } => match slots_read(
                c,
                profile,
                key_index,
                Seq::empty(),
                replies,
                next,
            ) {
                PartView::Ask(r) => PartView::Ask(r),
                PartView::Failed { error, next } => PartView::Failed { error, next },
                PartView::Found { value: configs, next } => PartView::Found {
                    value: DksView {
                        travel: word_at(travels, key_index as int),
                        modes: blob_modes(blob, key_index as int),
                        configs,
                    },
                    next,
                },
            },
        },
    }
}

/// The trigger settings that turn a key into a Dynamic Keystroke key.
pub open spec fn dks_trigger(
    c: CommandTable,
    t: KeyTriggerSettings,
    rapid_trigger: Option<bool>,
) -> KeyTriggerSettings {
    KeyTriggerSettings {
        mode: KeyMode { code: c.magnetism.dks_mode },
        rapid_trigger: match rapid_trigger {
            Some(rt) => rt,
            None => t.rapid_trigger,
        },
        ..t
    }
}

/// The table writes of a Dynamic Keystroke key: trigger, travel, packed bytes.
pub open spec fn dks_table_writes(
    c: CommandTable,
    t: KeyTriggerSettings,
    config: DksView,
) -> Seq<RequestView> {
    trigger_writes(c, t) + seq![
        key_write(c, c.magnetism.dks_travel, t.key_index, false, le_bytes(config.travel)),
        key_write(c, c.magnetism.dks_trigger_modes_set, t.key_index, true, config.modes),
    ]
}

/// The keymatrix writes of a Dynamic Keystroke key. Slot 0 keeps the key's current
/// output if it is left empty; only the last write saves.
pub open spec fn dks_slot_writes(
    profile: Profile,
    key_index: u8,
    configs: Seq<Seq<u8>>,
    current: Seq<u8>,
) -> Seq<RequestView> {
    Seq::new(
        4,
        |i: int|
            keymatrix_write(
                profile,
                key_index,
                KeymatrixLayer::at(i),
                if i == 0 {
                    slot0(configs[0], current)
                } else {
                    configs[i]
                },
                i == 3,
            ),
    )
}

/// Applying Dynamic Keystroke settings: read the trigger tables, write the tables, read
/// the key's base output, write the four slots.
pub open spec fn dks_write(
    c: CommandTable,
    profile: Profile,
    has_magnetism: bool,
    key_count: u8,
    key_index: u8,
    config: DksView,
    rapid_trigger: Option<bool>,
    replies: Seq<ReplyView>,
) -> PartView<()> {
    match triggers_read(c, has_magnetism, key_count, replies, 0) {
        PartView::Ask(r) => PartView::Ask(r),
        PartView::Failed { error, next } => PartView::Failed { error, next },
        PartView::Found { value: all, next } => match sent_from(
            dks_table_writes(c, dks_trigger(c, all.of_key(key_index), rapid_trigger), config),
            replies,
            next,
        ) {
            PartView::Ask(r) => PartView::Ask(r),
            PartView::Failed { error, next } => PartView::Failed { error, next },
            PartView::Found { next, .. } => match config_read(
                c.get_keymatrix,
                profile,
                KeymatrixLayer::Layer0,
                key_index,
                replies,
                next,
            ) {
                PartView::Ask(r) => PartView::Ask(r),
                PartView::Failed { error, next } => PartView::Failed { error, next },
                PartView::Found { value: current, next } => sent_from(
                    dks_slot_writes(profile, key_index, config.configs, current),
                    replies,
                    next,
                ),
            },
        },
    }
}

/// The wire value of a Mod-Tap time: tens of milliseconds, cut off at a byte.
pub open spec fn modtap_steps(ms: u16) -> u8 {
    if ms / MODTAP_TIME_STEP_MS > 255 {
        255
    } else {
        (ms / MODTAP_TIME_STEP_MS) as u8
    }
}

/// The requests that bind two keys as a Snap-Tap pair, in both directions.
pub open spec fn pair_writes(c: CommandTable, key_a: u8, key_b: u8) -> Seq<RequestView> {
    seq![
        key_write(c, c.magnetism.snaptap_enable, key_a, false, seq![key_b]),
        key_write(c, c.magnetism.snaptap_enable, key_b, true, seq![key_a]),
    ]
}

/// The Snap-Tap partner of a key, if it has one within the table.
pub open spec fn partner_of(binds: Seq<u8>, key_index: u8) -> Option<u8> {
    if key_index < binds.len() && binds[key_index as int] != SNAPTAP_UNBOUND
        && binds[key_index as int] < binds.len() {
        Some(binds[key_index as int])
    } else {
        None
    }
}

/// The keys that clearing a key's Snap-Tap binding unbinds.
pub open spec fn unbound_keys(binds: Seq<u8>, key_index: u8) -> Seq<u8> {
    match partner_of(binds, key_index) {
        Some(partner) => seq![key_index, partner],
        None => seq![key_index],
    }
}

/// The requests that unbind keys; the last saves.
pub open spec fn unbind_writes(c: CommandTable, keys: Seq<u8>) -> Seq<RequestView> {
    keys.map(
        |i: int, key: u8|
            key_write(
                c,
                c.magnetism.snaptap_enable,
                key,
                i == keys.len() - 1,
                seq![SNAPTAP_UNBOUND],
            ),
    )
}

/// The partner table after some keys were unbound.
pub open spec fn after_unbinding(binds: Seq<u8>, keys: Seq<u8>) -> Seq<u8> {
    Seq::new(
        binds.len(),
        |i: int|
            if i < 256 && keys.contains(i as u8) {
                SNAPTAP_UNBOUND
            } else {
                binds[i]
            },
    )
}

/// Clearing one key of a pair dissolves the pair: neither key is bound afterwards, and
/// every other key keeps its partner.
pub proof fn clearing_dissolves_the_pair(binds: Seq<u8>, key_a: u8, key_b: u8)
    requires
        key_a < binds.len() <= SNAPTAP_UNBOUND,
        key_b < binds.len(),
        binds[key_a as int] == key_b,
        binds[key_b as int] == key_a,
    ensures
        ({
            let after = after_unbinding(binds, unbound_keys(binds, key_a));
            &&& partner_of(after, key_a) is None
            &&& partner_of(after, key_b) is None
            &&& forall|k: u8|
                k < binds.len() && k != key_a && k != key_b ==> after[k as int] == binds[k as int]
        }),
{
    let keys = unbound_keys(binds, key_a);
    assert(keys[0] == key_a && keys[1] == key_b);
    assert(keys.contains(key_a) && keys.contains(key_b));
}

/// A Mod-Tap time that is written and read back is the same, up to the wire step; a time
/// above the longest reads back as the longest.
pub proof fn modtap_round_trip(ms: u16)
    ensures
        ms <= 2550 ==> modtap_steps(ms) * MODTAP_TIME_STEP_MS == ms - ms % MODTAP_TIME_STEP_MS,
        ms > 2550 ==> modtap_steps(ms) * MODTAP_TIME_STEP_MS == 2550,
{
}

/// Every word that is written to a table is read back from its bytes.
pub proof fn table_words_round_trip(values: Seq<u16>)
    ensures
        words(word_bytes(values), values.len()) == values,
{
    let bytes = word_bytes(values);
    assert forall|i: int| 0 <= i < values.len() implies words(bytes, values.len())[i]
        == values[i] by {
        assert(bytes[2 * i] == le_bytes(values[i])[0]);
        assert(bytes[2 * i + 1] == le_bytes(values[i])[1]);
        crate::bits::le_bytes_round_trip(values[i]);
    }
    assert(words(bytes, values.len()) =~= values);
}

/// A table's store once a page is written to it: page `p` lies at `56 * p`.
pub open spec fn page_stored(store: Seq<u8>, write: RequestView) -> Seq<u8> {
    match write {
        RequestView::Raw(f) => {
            let at = f.data[2] * MAGNETISM_PAGE_SIZE;
            let body = f.data.skip(7);
            store.take(at) + body + store.skip(at + body.len())
        },
        _ => store,
    }
}

/// A table's store once pages are written to it.
pub open spec fn pages_stored(store: Seq<u8>, writes: Seq<RequestView>) -> Seq<u8>
    decreases writes.len(),
{
    if writes.len() == 0 {
        store
    } else {
        page_stored(pages_stored(store, writes.drop_last()), writes.last())
    }
}

/// Pages that write a table leave its bytes at the start of the store.
proof fn lemma_pages_stored(store: Seq<u8>, c: CommandTable, sub_cmd: u8, bytes: Seq<u8>, n: int)
    requires
        bytes.len() <= 510,
        bytes.len() <= store.len(),
        0 <= n <= table_write(c, sub_cmd, bytes).len(),
    ensures
        ({
            let after = pages_stored(store, table_write(c, sub_cmd, bytes).take(n));
            let reach = if n * 56 < bytes.len() {
                n * 56
            } else {
                bytes.len() as int
            };
            &&& after.len() == store.len()
            &&& after.take(reach) == bytes.take(reach)
        }),
    decreases n,
{
    let all = table_write(c, sub_cmd, bytes);
    if n > 0 {
        let m = n - 1;
        lemma_pages_stored(store, c, sub_cmd, bytes, m);
        let before = pages_stored(store, all.take(m));
        assert(all.take(n).drop_last() =~= all.take(m));
        let f = all[m]->Raw_0;
        assert(m * 56 < bytes.len());
        let end = if (m + 1) * 56 < bytes.len() {
            (m + 1) * 56
        } else {
            bytes.len() as int
        };
        let body = bytes.subrange(m * 56, end);
        assert(f.data.skip(7) =~= body);
        assert(f.data[2] == m);
        let after = before.take(m * 56) + body + before.skip(m * 56 + body.len());
        assert(pages_stored(store, all.take(n)) == after);
        assert(after.take(end) =~= before.take(m * 56) + body);
        assert(bytes.take(end) =~= bytes.take(m * 56) + body);
    } else {
        assert(all.take(0) =~= Seq::<RequestView>::empty());
    }
}

/// A table of travels that was written is read back, whatever stood there before.
pub proof fn written_table_is_read_back(
    c: CommandTable,
    sub_cmd: u8,
    values: Seq<u16>,
    store: Seq<u8>,
    replies: Seq<ReplyView>,
    at: nat,
)
    requires
        values.len() <= 255,
        pages_of(2 * values.len()) * INPUT_REPORT_SIZE <= store.len(),
        tells_pages(
            replies,
            at,
            pages_of(2 * values.len()),
            pages_stored(store, table_write(c, sub_cmd, word_bytes(values))),
            INPUT_REPORT_SIZE as int,
        ),
    ensures
        decoded(
            block(table_pages(c, sub_cmd, pages_of(2 * values.len())), replies, at),
            |d: Seq<u8>| Ok(words(d, values.len())),
        ) == (PartView::Found { value: values, next: at + pages_of(2 * values.len()) }),
{
    let bytes = word_bytes(values);
    let writes = table_write(c, sub_cmd, bytes);
    let after = pages_stored(store, writes);
    let pages = pages_of(2 * values.len());
    assert(2 * values.len() <= pages * 64);
    lemma_pages_stored(store, c, sub_cmd, bytes, writes.len() as int);
    assert(writes.take(writes.len() as int) =~= writes);
    assert(bytes.len() <= writes.len() * 56);
    assert(after.take(bytes.len() as int) =~= bytes);
    pages_make_up_the_store(
        table_pages(c, sub_cmd, pages),
        replies,
        at,
        after,
        INPUT_REPORT_SIZE as int,
    );
    let read = after.take((pages * 64) as int);
    table_words_round_trip(values);
    assert forall|i: int| 0 <= i < values.len() implies words(read, values.len())[i] == values[i] by {
        assert(read[2 * i] == after.take(bytes.len() as int)[2 * i]);
        assert(read[2 * i + 1] == after.take(bytes.len() as int)[2 * i + 1]);
        assert(words(bytes, values.len())[i] == values[i]);
    }
    assert(words(read, values.len()) =~= values);
}

/// A table's store once one key's entry is written to it: entries lie one behind the
/// other.
pub open spec fn entry_stored(store: Seq<u8>, write: RequestView) -> Seq<u8> {
    match write {
        RequestView::Raw(f) => {
            let body = f.data.skip(7);
            let at = f.data[2] * body.len();
            store.take(at) + body + store.skip(at + body.len())
        },
        _ => store,
    }
}

/// The trigger settings of one key that are written are read back from the three tables
/// that hold them, and those of every other key stay.
pub proof fn written_trigger_is_read_back(
    c: CommandTable,
    t: KeyTriggerSettings,
    press: Seq<u8>,
    lift: Seq<u8>,
    modes: Seq<u8>,
    n: nat,
    other: u8,
)
    requires
        t.key_index < n,
        press.len() == 2 * n,
        lift.len() == 2 * n,
        modes.len() == n,
        t.mode.code < 128,
    ensures
        ({
            let w = trigger_writes(c, t);
            let key = t.key_index as int;
            let new_press = words(entry_stored(press, w[0]), n);
            let new_lift = words(entry_stored(lift, w[1]), n);
            let new_modes = entry_stored(modes, w[2]);
            &&& new_press[key] == t.actuation
            &&& new_lift[key] == t.deactuation
            &&& ModeByte::decoded(new_modes[key]) == (ModeByte {
                base: t.mode,
                rapid_trigger: t.rapid_trigger,
            })
            &&& other < n && other != t.key_index ==> {
                &&& new_press[other as int] == words(press, n)[other as int]
                &&& new_lift[other as int] == words(lift, n)[other as int]
                &&& new_modes[other as int] == modes[other as int]
            }
        }),
{
    let w = trigger_writes(c, t);
    let key = t.key_index as int;
    lemma_word_stored(c, c.magnetism.press_travel, t.key_index, false, t.actuation, press, n, other);
    lemma_word_stored(c, c.magnetism.lift_travel, t.key_index, false, t.deactuation, lift, n, other);
    let mode = ModeByte { base: t.mode, rapid_trigger: t.rapid_trigger };
    crate::magnetism::mode_round_trip(mode);
    lemma_entry_stored(c, c.magnetism.key_mode, t.key_index, true, seq![mode.encoded()], modes);
    let new_modes = entry_stored(modes, w[2]);
    assert(new_modes =~= modes.update(key, mode.encoded()));
}

/// Where an entry of one, two or four bytes is stored.
proof fn lemma_entry_stored(
    c: CommandTable,
    sub_cmd: u8,
    key_index: u8,
    is_final: bool,
    payload: Seq<u8>,
    store: Seq<u8>,
)
    ensures
        ({
            let after = entry_stored(store, key_write(c, sub_cmd, key_index, is_final, payload));
            let n = payload.len();
            let at = if n == 1 {
                key_index as int
            } else if n == 2 {
                2 * key_index
            } else {
                4 * key_index
            };
            n == 1 || n == 2 || n == 4 ==> after == store.take(at) + payload + store.skip(at + n)
        }),
{
    let write = key_write(c, sub_cmd, key_index, is_final, payload);
    let n = payload.len();
    assert(write->Raw_0.data.skip(7) =~= payload);
    assert(n == 1 ==> key_index * n == key_index) by (nonlinear_arith);
    assert(n == 2 ==> key_index * n == 2 * key_index) by (nonlinear_arith);
    assert(n == 4 ==> key_index * n == 4 * key_index) by (nonlinear_arith);
}

/// Binding two keys as a pair makes each the partner of the other, and every other key
/// keeps its partner.
pub proof fn bound_keys_are_partners(c: CommandTable, binds: Seq<u8>, key_a: u8, key_b: u8, other: u8)
    requires
        key_a < binds.len() <= SNAPTAP_UNBOUND,
        key_b < binds.len(),
        key_a != key_b,
    ensures
        ({
            let w = pair_writes(c, key_a, key_b);
            let after = entry_stored(entry_stored(binds, w[0]), w[1]);
            &&& partner_of(after, key_a) == Some(key_b)
            &&& partner_of(after, key_b) == Some(key_a)
            &&& other != key_a && other != key_b ==> partner_of(after, other) == partner_of(
                binds,
                other,
            )
        }),
{
    let w = pair_writes(c, key_a, key_b);
    let first = entry_stored(binds, w[0]);
    lemma_entry_stored(c, c.magnetism.snaptap_enable, key_a, false, seq![key_b], binds);
    lemma_entry_stored(c, c.magnetism.snaptap_enable, key_b, true, seq![key_a], first);
    assert(first =~= binds.update(key_a as int, key_b));
    assert(entry_stored(first, w[1]) =~= first.update(key_b as int, key_a));
}

/// A word that is written to a key's entry stands there, and nowhere else.
proof fn lemma_word_stored(
    c: CommandTable,
    sub_cmd: u8,
    key_index: u8,
    is_final: bool,
    value: u16,
    store: Seq<u8>,
    n: nat,
    other: u8,
)
    requires
        key_index < n,
        store.len() == 2 * n,
    ensures
        ({
            let after = entry_stored(
                store,
                key_write(c, sub_cmd, key_index, is_final, le_bytes(value)),
            );
            &&& words(after, n)[key_index as int] == value
            &&& other < n && other != key_index ==> words(after, n)[other as int] == words(
                store,
                n,
            )[other as int]
        }),
{
    let write = key_write(c, sub_cmd, key_index, is_final, le_bytes(value));
    lemma_entry_stored(c, sub_cmd, key_index, is_final, le_bytes(value), store);
    let after = entry_stored(store, write);
    let k = key_index as int;
    let o = other as int;
    assert(after.len() == 2 * n);
    assert(after[2 * k] == le_bytes(value)[0]);
    assert(after[2 * k + 1] == le_bytes(value)[1]);
    if other < n && other != key_index {
        assert(after[2 * o] == store[2 * o]);
        assert(after[2 * o + 1] == store[2 * o + 1]);
    }
    crate::bits::le_bytes_round_trip(value);
}

/// The Dynamic Keystroke settings that are written to a key are read back: travel, packed
/// bytes, and the four slots. A slot 0 that is left empty reads as the key's output from
/// before. The layers and the blob hold 128 keys.
#[verifier::spinoff_prover]
#[verifier::rlimit(40)]
pub proof fn written_dks_is_read_back(
    c: CommandTable,
    profile: Profile,
    key_count: u8,
    t: KeyTriggerSettings,
    config: DksView,
    travels: Seq<u8>,
    blob: Seq<u8>,
    layers: Seq<Seq<u8>>,
    replies: Seq<ReplyView>,
)
    requires
        t.key_index < key_count,
        t.key_index < 128,
        travels.len() == page_count(key_count as nat, 32) * INPUT_REPORT_SIZE,
        blob.len() == DKS_BLOB_PAGES * INPUT_REPORT_SIZE,
        layers.len() == 4,
        forall|i: int| 0 <= i < 4 ==> (#[trigger] layers[i]).len() == 512,
        config.modes.len() == 4,
        config.configs.len() == 4,
        forall|i: int| 0 <= i < 4 ==> (#[trigger] config.configs[i]).len() == 4,
        ({
            let w = dks_table_writes(c, t, config);
            let p = page_count(key_count as nat, 32);
            let s = dks_slot_writes(
                profile,
                t.key_index,
                config.configs,
                layers[0].subrange(t.key_index * 4, t.key_index * 4 + 4),
            );
            &&& tells_pages(replies, 0, p, entry_stored(travels, w[3]), 64)
            &&& tells_pages(replies, p, 8, entry_stored(blob, w[4]), 64)
            &&& forall|i: int|
                0 <= i < 4 ==> tells_pages(
                    replies,
                    (p + 8 + 8 * i) as nat,
                    8,
                    with_config(#[trigger] layers[i], t.key_index, s[i]->KeyMatrix_config),
                    64,
                )
        }),
    ensures
        dks_read(c, profile, key_count, t.key_index, replies) == (PartView::Found {
            value: DksView {
                travel: config.travel,
                modes: config.modes,
                configs: config.configs.update(
                    0,
                    slot0(
                        config.configs[0],
                        layers[0].subrange(t.key_index * 4, t.key_index * 4 + 4),
                    ),
                ),
            },
            next: page_count(key_count as nat, 32) + 40,
        }),
{
    let k = t.key_index as int;
    let p = page_count(key_count as nat, 32);
    let w = dks_table_writes(c, t, config);
    let current = layers[0].subrange(k * 4, k * 4 + 4);
    let s = dks_slot_writes(profile, t.key_index, config.configs, current);
    let new_travels = entry_stored(travels, w[3]);
    let new_blob = entry_stored(blob, w[4]);
    assert(key_count <= p * 32);
    lemma_entry_stored(
        c,
        c.magnetism.dks_travel,
        t.key_index,
        false,
        le_bytes(config.travel),
        travels,
    );
    lemma_entry_stored(
        c,
        c.magnetism.dks_trigger_modes_set,
        t.key_index,
        true,
        config.modes,
        blob,
    );
    pages_make_up_the_store(
        table_pages(c, c.magnetism.dks_travel, p),
        replies,
        0,
        new_travels,
        64,
    );
    assert(new_travels.take((p * 64) as int) =~= new_travels);
    assert(new_travels[2 * k] == le_bytes(config.travel)[0]);
    assert(new_travels[2 * k + 1] == le_bytes(config.travel)[1]);
    crate::bits::le_bytes_round_trip(config.travel);
    pages_make_up_the_store(table_pages(c, c.magnetism.dks_modes, 8), replies, p, new_blob, 64);
    assert(new_blob.take(512) =~= new_blob);
    assert(blob_modes(new_blob, k) =~= config.modes);
    let stored = config.configs.update(0, slot0(config.configs[0], current));
    assert forall|i: int| 0 <= i < 4 implies config_read(
        c.get_keymatrix,
        profile,
        KeymatrixLayer::at(i),
        t.key_index,
        replies,
        (p + 8 + 8 * i) as nat,
    ) == (PartView::Found { value: #[trigger] stored[i], next: (p + 16 + 8 * i) as nat }) by {
        let new = with_config(layers[i], t.key_index, s[i]->KeyMatrix_config);
        assert(s[i]->KeyMatrix_config == stored[i]);
        pages_make_up_the_store(
            keymatrix_pages(c.get_keymatrix, profile, KeymatrixLayer::at(i), 8),
            replies,
            (p + 8 + 8 * i) as nat,
            new,
            64,
        );
        assert(new.take(512) =~= new);
        assert(new.subrange(k * 4, k * 4 + 4) =~= stored[i]);
    }
    let none = Seq::<Seq<u8>>::empty();
    reveal_with_fuel(slots_read, 5);
    let one = none.push(stored[0]);
    let two = one.push(stored[1]);
    let three = two.push(stored[2]);
    assert(three.push(stored[3]) =~= stored);
}

/// How many pages of `size` hold `len` bytes.
pub fn count_pages(len: usize, size: usize) -> (r: usize)
    requires
        size > 0,
    ensures
        r == page_count(len as nat, size as nat),
{
    let rest: usize = len % size;
    proof {
        lemma_page_count(len as nat, size as nat);
    }
    if rest == 0 {
        len / size
    } else {
        len / size + 1
    }
}

/// The page count in terms of quotient and remainder.
proof fn lemma_page_count(len: nat, size: nat)
    requires
        size > 0,
    ensures
        page_count(len, size) == len / size + (if len % size == 0 {
            0nat
        } else {
            1nat
        }),
        len % size != 0 ==> len / size + 1 <= len,
{
    vstd::arithmetic::div_mod::lemma_fundamental_div_mod(len as int, size as int);
    let q = (len / size) as int;
    let r = (len % size) as int;
    assert(len == size * q + r);
    if r == 0 {
        assert(size * q == q * size) by (nonlinear_arith);
        vstd::arithmetic::div_mod::lemma_fundamental_div_mod_converse(
            (len + size - 1) as int,
            size as int,
            q,
            size - 1,
        );
    } else {
        assert((q + 1) * size == size * q + size) by (nonlinear_arith);
        vstd::arithmetic::div_mod::lemma_fundamental_div_mod_converse(
            (len + size - 1) as int,
            size as int,
            q + 1,
            r - 1,
        );
        assert(q + 1 <= len) by (nonlinear_arith)
            requires
                len == size * q + r,
                r >= 1,
                size >= 1,
                q >= 0,
        ;
    }
}

/// The requests for the pages of a trigger table.
fn table_requests(c: &CommandTable, sub_cmd: u8, num_pages: usize) -> (r: Vec<Request>)
    ensures
        requests(r@) == table_pages(*c, sub_cmd, num_pages as nat),
{
    let mut out: Vec<Request> = Vec::new();
    let mut page: usize = 0;
    while page < num_pages
        invariant
            page <= num_pages,
            requests(out@) == table_pages(*c, sub_cmd, page as nat),
        decreases num_pages - page,
    {
        let data: Vec<u8> = vec![sub_cmd, 1, (page % 256) as u8];
        assert(data@ =~= seq![sub_cmd, 1u8, (page % 256) as u8]);
        let ghost before = out@;
        out.push(
            Request::frame(
                c.get_multi_magnetism,
                data,
                ChecksumType::Bit7,
                Delivery::QueryPage(INPUT_REPORT_SIZE),
            ),
        );
        assert(requests(out@) =~= requests(before).push(out@.last()@));
        assert(table_pages(*c, sub_cmd, (page + 1) as nat) =~= table_pages(
            *c,
            sub_cmd,
            page as nat,
        ).push(out@.last()@));
        page += 1;
    }
    assert(requests(out@) =~= table_pages(*c, sub_cmd, num_pages as nat));
    out
}

/// The request that writes one key's entry of a trigger table.
fn write_key(c: &CommandTable, sub_cmd: u8, key_index: u8, is_final: bool, payload: &[u8]) -> (r: Request)
    ensures
        r@ == key_write(*c, sub_cmd, key_index, is_final, payload@),
{
    let mut data: Vec<u8> =
        vec![
        sub_cmd,
        0,
        key_index,
        if is_final {
            1
        } else {
            0
        },
        0,
        0,
        0,
    ];
    data.extend_from_slice(payload);
    assert(data@ =~= seq![sub_cmd, 0u8, key_index, flag(is_final), 0u8, 0u8, 0u8] + payload@);
    let wait_ms: u64 = if is_final {
        MAGNETISM_SETTLE_MS
    } else {
        MAGNETISM_PAGE_MS
    };
    Request::frame(
        c.set_multi_magnetism,
        data,
        ChecksumType::Bit7,
        Delivery::SendThenWait(wait_ms),
    )
}

/// The requests that write a whole trigger table.
fn write_table(c: &CommandTable, sub_cmd: u8, bytes: &[u8]) -> (r: Vec<Request>)
    ensures
        requests(r@) == table_write(*c, sub_cmd, bytes@),
{
    let n: usize = bytes.len();
    let pages: usize = count_pages(n, MAGNETISM_PAGE_SIZE);
    let mut out: Vec<Request> = Vec::new();
    let mut page: usize = 0;
    while page < pages
        invariant
            n == bytes@.len(),
            pages == page_count(bytes@.len(), 56),
            page <= pages,
            requests(out@) == table_write(*c, sub_cmd, bytes@).take(page as int),
        decreases pages - page,
    {
        let start: usize = page * MAGNETISM_PAGE_SIZE;
        let end: usize = if n - start > MAGNETISM_PAGE_SIZE {
            start + MAGNETISM_PAGE_SIZE
        } else {
            n
        };
        let chunk: Vec<u8> = sub_bytes(bytes, start, end);
        assert(chunk@ == page_bytes(bytes@, page as int, 56));
        let mut data: Vec<u8> =
            vec![
            sub_cmd,
            1,
            (page % 256) as u8,
            if page == pages - 1 {
                1
            } else {
                0
            },
            0,
            0,
            0,
        ];
        data.extend_from_slice(chunk.as_slice());
        assert(data@ =~= seq![
            sub_cmd,
            1u8,
            (page % 256) as u8,
            flag(page == pages - 1),
            0u8,
            0u8,
            0u8,
        ] + chunk@);
        let ghost before = out@;
        out.push(
            Request::frame(
                c.set_multi_magnetism,
                data,
                ChecksumType::Bit7,
                Delivery::SendThenWait(MAGNETISM_PAGE_MS),
            ),
        );
        assert(requests(out@) =~= requests(before).push(out@.last()@));
        assert(table_write(*c, sub_cmd, bytes@).take(page + 1) =~= table_write(
            *c,
            sub_cmd,
            bytes@,
        ).take(page as int).push(table_write(*c, sub_cmd, bytes@)[page as int]));
        page += 1;
    }
    assert(table_write(*c, sub_cmd, bytes@).take(page as int) =~= table_write(*c, sub_cmd, bytes@));
    out
}

/// The bytes of a list of words.
fn bytes_of_words(values: &[u16], count: usize) -> (r: Vec<u8>)
    ensures
        r@ == word_bytes(up_to(values@, count as nat)),
{
    let n: usize = if values.len() < count {
        values.len()
    } else {
        count
    };
    let ghost taken = up_to(values@, count as nat);
    let mut out: Vec<u8> = Vec::new();
    let mut i: usize = 0;
    while i < n
        invariant
            n <= values@.len(),
            n == taken.len(),
            taken == up_to(values@, count as nat),
            i <= n,
            out@ == word_bytes(taken.take(i as int)),
        decreases n - i,
    {
        let ghost before = out@;
        assert(taken[i as int] == values@[i as int]);
        out.push(low_byte(values[i]));
        out.push(high_byte(values[i]));
        assert(out@ =~= before + le_bytes(values@[i as int]));
        assert(word_bytes(taken.take(i + 1)) =~= word_bytes(taken.take(i as int)) + le_bytes(
            taken[i as int],
        ));
        i += 1;
    }
    assert(taken.take(i as int) =~= taken);
    out
}

impl KeyboardInterface {
    /// Turn key depth reports on.
    pub fn start_magnetism_report(&self, replies: &[Reply]) -> (r: Step<()>)
        ensures
            r@ == (if !self.has_magnetism {
                StepView::Done(Err(unsupported("Device does not have Hall Effect switches"@)))
            } else {
                sent(seen(replies@), seq![RequestView::MagnetismReport { enable: true }])
            }),
    {
        if !self.has_magnetism {
            return Step::Done(
                Err(KeyboardError::not_supported("Device does not have Hall Effect switches")),
            );
        }
        send_one(Request::MagnetismReport { enable: true }, replies)
    }

    /// Turn key depth reports off. Without magnetic switches there is nothing to do.
    pub fn stop_magnetism_report(&self, replies: &[Reply]) -> (r: Step<()>)
        ensures
            r@ == (if !self.has_magnetism {
                StepView::Done(Ok(()))
            } else {
                sent(seen(replies@), seq![RequestView::MagnetismReport { enable: false }])
            }),
    {
        if !self.has_magnetism {
            return Step::Done(Ok(()));
        }
        send_one(Request::MagnetismReport { enable: false }, replies)
    }

    /// Read a trigger table from the reply `at` on. A page that fails ends the read: a
    /// fabricated one would read as real settings.
    pub fn get_magnetism(&self, sub_cmd: u8, num_pages: usize, replies: &[Reply], at: usize) -> (r: Part<
        Vec<u8>,
    >)
        requires
            at <= replies@.len(),
        ensures
            r@ == block(
                table_pages(self.commands, sub_cmd, num_pages as nat),
                seen(replies@),
                at as nat,
            ),
            r.within(at as int, replies@.len() as int),
    {
        read_block(table_requests(&self.commands, sub_cmd, num_pages), replies, at)
    }

    /// Read two tables of words from the reply `at` on.
    fn two_tables(&self, first_sub: u8, second_sub: u8, replies: &[Reply], at: usize) -> (r: Part<
        (Vec<u8>, Vec<u8>),
    >)
        requires
            at <= replies@.len(),
        ensures
            r@ == two_tables_read(
                self.commands,
                first_sub,
                second_sub,
                self.key_count,
                seen(replies@),
                at as nat,
            ),
            r.within(at as int, replies@.len() as int),
    {
        let pages: usize = count_pages(2 * self.key_count as usize, INPUT_REPORT_SIZE);
        match self.get_magnetism(first_sub, pages, replies, at) {
            Part::Ask(request) => Part::Ask(request),
            Part::Failed { error, next } => Part::Failed { error, next },
            Part::Found { value: a, next } => match self.get_magnetism(
                second_sub,
                pages,
                replies,
                next,
            ) {
                Part::Ask(request) => Part::Ask(request),
                Part::Failed { error, next } => Part::Failed { error, next },
                Part::Found { value: b, next } => Part::Found { value: (a, b), next },
            },
        }
    }

    /// Read the deadzone tables from the reply `at` on.
    fn deadzones(&self, replies: &[Reply], at: usize) -> (r: Part<(Vec<u8>, Vec<u8>)>)
        requires
            at <= replies@.len(),
        ensures
            r@ == deadzones_read(self.commands, self.key_count, seen(replies@), at as nat),
            r.within(at as int, replies@.len() as int),
    {
        let pages: usize = count_pages(2 * self.key_count as usize, INPUT_REPORT_SIZE);
        let (bottom, then_at): (Vec<u8>, usize) = match self.get_magnetism(
            self.commands.magnetism.bottom_deadzone,
            pages,
            replies,
            at,
        ) {
            Part::Ask(request) => {
                return Part::Ask(request);
            },
            Part::Failed { next, .. } => (Vec::new(), next),
            Part::Found { value, next } => (value, next),
        };
        match self.get_magnetism(self.commands.magnetism.top_deadzone, pages, replies, then_at) {
            Part::Ask(request) => Part::Ask(request),
            Part::Failed { next, .. } => Part::Found { value: (bottom, Vec::new()), next },
            Part::Found { value, next } => Part::Found { value: (bottom, value), next },
        }
    }

    /// Read all trigger tables from the reply `at` on.
    pub fn triggers_part(&self, replies: &[Reply], at: usize) -> (r: Part<TriggerSettings>)
        requires
            at <= replies@.len(),
        ensures
            r@ == triggers_read(
                self.commands,
                self.has_magnetism,
                self.key_count,
                seen(replies@),
                at as nat,
            ),
            r.within(at as int, replies@.len() as int),
    {
        if !self.has_magnetism {
            return Part::Failed {
                error: KeyboardError::not_supported("Device does not have Hall Effect switches"),
                next: at,
            };
        }
        let n: usize = self.key_count as usize;
        let table: crate::protocol::MagnetismTable = self.commands.magnetism;
        match self.get_magnetism(
            table.key_mode,
            count_pages(n, INPUT_REPORT_SIZE),
            replies,
            at,
        ) {
            Part::Ask(request) => Part::Ask(request),
            Part::Failed { error, next } => Part::Failed { error, next },
            Part::Found { value: modes, next } => match self.two_tables(
                table.press_travel,
                table.lift_travel,
                replies,
                next,
            ) {
                Part::Ask(request) => Part::Ask(request),
                Part::Failed { error, next } => Part::Failed { error, next },
                Part::Found { value: travel, next } => match self.two_tables(
                    table.rt_press,
                    table.rt_lift,
                    replies,
                    next,
                ) {
                    Part::Ask(request) => Part::Ask(request),
                    Part::Failed { error, next } => Part::Failed { error, next },
                    Part::Found { value: rt, next } => match self.deadzones(replies, next) {
                        Part::Ask(request) => Part::Ask(request),
                        Part::Failed { error, next } => Part::Failed { error, next },
                        Part::Found { value: dz, next } => Part::Found {
                            value: TriggerSettings {
                                key_count: n,
                                press_travel: TriggerSettings::decode_u16_values(
                                    travel.0.as_slice(),
                                    n,
                                ),
                                lift_travel: TriggerSettings::decode_u16_values(
                                    travel.1.as_slice(),
                                    n,
                                ),
                                rt_press: TriggerSettings::decode_u16_values(rt.0.as_slice(), n),
                                rt_lift: TriggerSettings::decode_u16_values(rt.1.as_slice(), n),
                                key_modes: modes,
                                bottom_deadzone: TriggerSettings::decode_u16_values(
                                    dz.0.as_slice(),
                                    n,
                                ),
                                top_deadzone: TriggerSettings::decode_u16_values(
                                    dz.1.as_slice(),
                                    n,
                                ),
                            },
                            next,
                        },
                    },
                },
            },
        }
    }

    /// Get the trigger settings of all keys.
    pub fn get_all_triggers(&self, replies: &[Reply]) -> (r: Step<TriggerSettings>)
        ensures
            r@ == whole(
                triggers_read(
                    self.commands,
                    self.has_magnetism,
                    self.key_count,
                    seen(replies@),
                    0,
                ),
            ),
    {
        self.triggers_part(replies, 0).into_step()
    }

    /// Get the trigger settings of one key, out of the tables of all.
    pub fn get_key_trigger(&self, key_index: u8, replies: &[Reply]) -> (r: Step<KeyTriggerSettings>)
        ensures
            r@ == (match whole(
                triggers_read(
                    self.commands,
                    self.has_magnetism,
                    self.key_count,
                    seen(replies@),
                    0,
                ),
            ) {
                StepView::Ask(request) => StepView::Ask(request),
                StepView::Done(Err(e)) => StepView::Done(Err(e)),
                StepView::Done(Ok(all)) => StepView::Done(Ok(all.of_key(key_index))),
            }),
    {
        match self.get_all_triggers(replies) {
            Step::Ask(request) => Step::Ask(request),
            Step::Done(Err(e)) => Step::Done(Err(e)),
            Step::Done(Ok(all)) => Step::Done(Ok(all.key(key_index))),
        }
    }

    /// Set the trigger settings of one key.
    pub fn set_key_trigger(&self, settings: &KeyTriggerSettings, replies: &[Reply]) -> (r: Step<()>)
        ensures
            r@ == (if !self.has_magnetism {
                StepView::Done(Err(unsupported("Device does not have Hall Effect switches"@)))
            } else {
                sent(seen(replies@), trigger_writes(self.commands, *settings))
            }),
    {
        if !self.has_magnetism {
            return Step::Done(
                Err(KeyboardError::not_supported("Device does not have Hall Effect switches")),
            );
        }
        send_all(self.trigger_requests(settings), replies)
    }

    /// The requests that write one key's trigger settings.
    fn trigger_requests(&self, t: &KeyTriggerSettings) -> (r: Vec<Request>)
        ensures
            requests(r@) == trigger_writes(self.commands, *t),
    {
        let c: &CommandTable = &self.commands;
        let press: Vec<u8> = vec![low_byte(t.actuation), high_byte(t.actuation)];
        assert(press@ =~= le_bytes(t.actuation));
        let lift: Vec<u8> = vec![low_byte(t.deactuation), high_byte(t.deactuation)];
        assert(lift@ =~= le_bytes(t.deactuation));
        let mode: Vec<u8> = vec![ModeByte::new(t.mode, t.rapid_trigger).to_u8()];
        assert(mode@ =~= seq![
            (ModeByte { base: t.mode, rapid_trigger: t.rapid_trigger }).encoded(),
        ]);
        let mut out: Vec<Request> = Vec::new();
        out.push(write_key(c, c.magnetism.press_travel, t.key_index, false, press.as_slice()));
        out.push(write_key(c, c.magnetism.lift_travel, t.key_index, false, lift.as_slice()));
        out.push(write_key(c, c.magnetism.key_mode, t.key_index, true, mode.as_slice()));
        assert(requests(out@) =~= trigger_writes(self.commands, *t));
        out
    }

    /// Write words to a trigger table, for as many keys as there are.
    pub fn set_magnetism_u16(&self, sub_cmd: u8, values: &[u16], replies: &[Reply]) -> (r: Step<()>)
        ensures
            r@ == sent(
                seen(replies@),
                table_write(
                    self.commands,
                    sub_cmd,
                    word_bytes(up_to(values@, self.key_count as nat)),
                ),
            ),
    {
        let bytes: Vec<u8> = bytes_of_words(values, self.key_count as usize);
        send_all(write_table(&self.commands, sub_cmd, bytes.as_slice()), replies)
    }

    /// Write bytes to a trigger table in one piece, one per key. There must be a value
    /// for every key.
    pub fn set_magnetism_u8(&self, sub_cmd: u8, values: &[u8], replies: &[Reply]) -> (r: Step<()>)
        requires
            self.key_count <= values@.len(),
        ensures
            r@ == sent(
                seen(replies@),
                seq![
                    command(
                        self.commands.set_multi_magnetism,
                        seq![sub_cmd] + values@.take(self.key_count as int),
                    ),
                ],
            ),
    {
        let mut data: Vec<u8> = vec![sub_cmd];
        let part: Vec<u8> = sub_bytes(values, 0, self.key_count as usize);
        data.extend_from_slice(part.as_slice());
        assert(data@ =~= seq![sub_cmd] + values@.take(self.key_count as int));
        send_one(command_request(self.commands.set_multi_magnetism, data), replies)
    }

    /// Write the same travel for all keys.
    fn set_travel_all(&self, sub_cmd: u8, travel: TravelDepth, replies: &[Reply]) -> (r: Step<()>)
        ensures
            r@ == sent(
                seen(replies@),
                table_write(
                    self.commands,
                    sub_cmd,
                    word_bytes(Seq::new(self.key_count as nat, |i: int| travel.units())),
                ),
            ),
    {
        let values: Vec<u16> = vec![travel.raw(); self.key_count as usize];
        assert(up_to(values@, self.key_count as nat) =~= Seq::new(
            self.key_count as nat,
            |i: int| travel.units(),
        ));
        self.set_magnetism_u16(sub_cmd, values.as_slice(), replies)
    }

    /// Set the actuation point of all keys.
    pub fn set_actuation_all(&self, travel: TravelDepth, replies: &[Reply]) -> (r: Step<()>)
        ensures
            r@ == sent(
                seen(replies@),
                table_write(
                    self.commands,
                    self.commands.magnetism.press_travel,
                    word_bytes(Seq::new(self.key_count as nat, |i: int| travel.units())),
                ),
            ),
    {
        self.set_travel_all(self.commands.magnetism.press_travel, travel, replies)
    }

    /// Set the release point of all keys.
    pub fn set_release_all(&self, travel: TravelDepth, replies: &[Reply]) -> (r: Step<()>)
        ensures
            r@ == sent(
                seen(replies@),
                table_write(
                    self.commands,
                    self.commands.magnetism.lift_travel,
                    word_bytes(Seq::new(self.key_count as nat, |i: int| travel.units())),
                ),
            ),
    {
        self.set_travel_all(self.commands.magnetism.lift_travel, travel, replies)
    }

    /// Set the Rapid Trigger press sensitivity of all keys.
    pub fn set_rt_press_all(&self, travel: TravelDepth, replies: &[Reply]) -> (r: Step<()>)
        ensures
            r@ == sent(
                seen(replies@),
                table_write(
                    self.commands,
                    self.commands.magnetism.rt_press,
                    word_bytes(Seq::new(self.key_count as nat, |i: int| travel.units())),
                ),
            ),
    {
        self.set_travel_all(self.commands.magnetism.rt_press, travel, replies)
    }

    /// Set the Rapid Trigger release sensitivity of all keys.
    pub fn set_rt_lift_all(&self, travel: TravelDepth, replies: &[Reply]) -> (r: Step<()>)
        ensures
            r@ == sent(
                seen(replies@),
                table_write(
                    self.commands,
                    self.commands.magnetism.rt_lift,
                    word_bytes(Seq::new(self.key_count as nat, |i: int| travel.units())),
                ),
            ),
    {
        self.set_travel_all(self.commands.magnetism.rt_lift, travel, replies)
    }

    /// Set the bottom deadzone of all keys: how far from the bottom travel is ignored.
    pub fn set_bottom_deadzone_all(&self, travel: TravelDepth, replies: &[Reply]) -> (r: Step<()>)
        ensures
            r@ == sent(
                seen(replies@),
                table_write(
                    self.commands,
                    self.commands.magnetism.bottom_deadzone,
                    word_bytes(Seq::new(self.key_count as nat, |i: int| travel.units())),
                ),
            ),
    {
        self.set_travel_all(self.commands.magnetism.bottom_deadzone, travel, replies)
    }

    /// Set the top deadzone of all keys: how far from the top travel is ignored.
    pub fn set_top_deadzone_all(&self, travel: TravelDepth, replies: &[Reply]) -> (r: Step<()>)
        ensures
            r@ == sent(
                seen(replies@),
                table_write(
                    self.commands,
                    self.commands.magnetism.top_deadzone,
                    word_bytes(Seq::new(self.key_count as nat, |i: int| travel.units())),
                ),
            ),
    {
        self.set_travel_all(self.commands.magnetism.top_deadzone, travel, replies)
    }

    /// Set or clear the Rapid Trigger flag of all keys, keeping each key's mode.
    pub fn set_rapid_trigger_all(&self, enable: bool, replies: &[Reply]) -> (r: Step<()>)
        ensures
            r@ == (match block(
                table_pages(
                    self.commands,
                    self.commands.magnetism.key_mode,
                    pages_of(self.key_count as nat),
                ),
                seen(replies@),
                0,
            ) {
                PartView::Ask(request) => StepView::Ask(request),
                PartView::Failed { error, .. } => StepView::Done(Err(error)),
                PartView::Found { value, next } => whole(
                    sent_from(
                        seq![
                            command(
                                self.commands.set_multi_magnetism,
                                seq![self.commands.magnetism.key_mode] + Seq::new(
                                    self.key_count as nat,
                                    |i: int| with_rapid_trigger(byte_at(value, i), enable),
                                ),
                            ),
                        ],
                        seen(replies@),
                        next,
                    ),
                ),
            }),
    {
        let sub_cmd: u8 = self.commands.magnetism.key_mode;
        let n: usize = self.key_count as usize;
        match self.get_magnetism(sub_cmd, count_pages(n, INPUT_REPORT_SIZE), replies, 0) {
            Part::Ask(request) => Step::Ask(request),
            Part::Failed { error, .. } => Step::Done(Err(error)),
            Part::Found { value, next } => {
                let mut data: Vec<u8> = vec![sub_cmd];
                let mut i: usize = 0;
                while i < n
                    invariant
                        i <= n,
                        data@ == seq![sub_cmd] + Seq::new(
                            i as nat,
                            |k: int| with_rapid_trigger(byte_at(value@, k), enable),
                        ),
                    decreases n - i,
                {
                    let ghost before = data@;
                    data.push(set_rapid_trigger(get_byte(value.as_slice(), i), enable));
                    assert(Seq::new(
                        (i + 1) as nat,
                        |k: int| with_rapid_trigger(byte_at(value@, k), enable),
                    ) =~= Seq::new(
                        i as nat,
                        |k: int| with_rapid_trigger(byte_at(value@, k), enable),
                    ).push(with_rapid_trigger(byte_at(value@, i as int), enable)));
                    i += 1;
                }
                let ghost expected = seq![sub_cmd] + Seq::new(
                    self.key_count as nat,
                    |i: int| with_rapid_trigger(byte_at(value@, i), enable),
                );
                assert(data@ =~= expected);
                let mut list: Vec<Request> = Vec::new();
                list.push(command_request(self.commands.set_multi_magnetism, data));
                assert(requests(list@) =~= seq![
                    command(self.commands.set_multi_magnetism, expected),
                ]);
                send_from(list, replies, next).into_step()
            },
        }
    }

    /// Set the base mode of all keys, with the Rapid Trigger flag cleared.
    pub fn set_mode_all(&self, mode: ModeByte, replies: &[Reply]) -> (r: Step<()>)
        ensures
            r@ == sent(
                seen(replies@),
                seq![
                    command(
                        self.commands.set_multi_magnetism,
                        seq![self.commands.magnetism.key_mode] + Seq::new(
                            self.key_count as nat,
                            |i: int| (mode.base.code % 128) as u8,
                        ),
                    ),
                ],
            ),
    {
        let values: Vec<u8> = vec![mode.base.code % 128; self.key_count as usize];
        assert(values@.take(self.key_count as int) =~= Seq::new(
            self.key_count as nat,
            |i: int| (mode.base.code % 128) as u8,
        ));
        self.set_magnetism_u8(self.commands.magnetism.key_mode, values.as_slice(), replies)
    }

    /// Write one key's bytes of a trigger table.
    pub fn set_magnetism_simple(
        &self,
        sub_cmd: u8,
        key_index: u8,
        is_final: bool,
        payload: &[u8],
        replies: &[Reply],
    ) -> (r: Step<()>)
        ensures
            r@ == sent(
                seen(replies@),
                seq![key_write(self.commands, sub_cmd, key_index, is_final, payload@)],
            ),
    {
        send_one(write_key(&self.commands, sub_cmd, key_index, is_final, payload), replies)
    }

    /// Read the Dynamic Keystroke blob, 512 bytes.
    pub fn get_dks_trigger_modes_blob(&self, replies: &[Reply]) -> (r: Step<Vec<u8>>)
        ensures
            r@ == whole(dks_blob_read(self.commands, seen(replies@), 0)),
    {
        self.dks_blob_part(replies, 0).into_step()
    }

    /// Read the Dynamic Keystroke blob from the reply `at` on.
    pub fn dks_blob_part(&self, replies: &[Reply], at: usize) -> (r: Part<Vec<u8>>)
        requires
            at <= replies@.len(),
        ensures
            r@ == dks_blob_read(self.commands, seen(replies@), at as nat),
            r.within(at as int, replies@.len() as int),
    {
        self.get_magnetism(self.commands.magnetism.dks_modes, DKS_BLOB_PAGES, replies, at)
    }

    /// Read the Dynamic Keystroke travel of every key from the reply `at` on.
    pub fn dks_travels_part(&self, replies: &[Reply], at: usize) -> (r: Part<Vec<u16>>)
        requires
            at <= replies@.len(),
        ensures
            r@ == dks_travels_read(self.commands, self.key_count, seen(replies@), at as nat),
            r.within(at as int, replies@.len() as int),
    {
        let n: usize = self.key_count as usize;
        match self.get_magnetism(
            self.commands.magnetism.dks_travel,
            count_pages(n, 32),
            replies,
            at,
        ) {
            Part::Ask(request) => Part::Ask(request),
            Part::Failed { error, next } => Part::Failed { error, next },
            Part::Found { value, next } => Part::Found {
                value: decode_words_padded(value.as_slice(), n),
                next,
            },
        }
    }

    /// Read the Dynamic Keystroke travel of every key.
    pub fn get_dks_travels(&self, replies: &[Reply]) -> (r: Step<Vec<u16>>)
        ensures
            r@ == whole(dks_travels_read(self.commands, self.key_count, seen(replies@), 0)),
    {
        self.dks_travels_part(replies, 0).into_step()
    }

    /// Read the Dynamic Keystroke settings of one key. The slots keep their bytes as they
    /// are, since a slot may hold any action.
    pub fn get_dks_config(&self, key_index: u8, replies: &[Reply]) -> (r: Step<DksConfig>)
        ensures
            r@ == whole(
                dks_read(
                    self.commands,
                    self.active_profile,
                    self.key_count,
                    key_index,
                    seen(replies@),
                ),
            ),
    {
        let idx: usize = key_index as usize;
        let (travels, after_travels): (Vec<u16>, usize) = match self.dks_travels_part(replies, 0) {
            Part::Ask(request) => {
                return Step::Ask(request);
            },
            Part::Failed { error, .. } => {
                return Step::Done(Err(error));
            },
            Part::Found { value, next } => (value, next),
        };
        let (blob, after_blob): (Vec<u8>, usize) = match self.dks_blob_part(
            replies,
            after_travels,
        ) {
            Part::Ask(request) => {
                return Step::Ask(request);
            },
            Part::Failed { error, .. } => {
                return Step::Done(Err(error));
            },
            Part::Found { value, next } => (value, next),
        };
        let modes: [u8; 4] = DksConfig::trigger_modes_from_blob(blob.as_slice(), idx);
        let mut configs: [[u8; 4]; 4] = [[0, 0, 0, 0], [0, 0, 0, 0], [0, 0, 0, 0], [0, 0, 0, 0]];
        let mut at: usize = after_blob;
        let mut slot: usize = 0;
        let ghost got = Seq::<Seq<u8>>::empty();
        let ghost start = slots_read(
            self.commands,
            self.active_profile,
            key_index,
            Seq::empty(),
            seen(replies@),
            after_blob as nat,
        );
        while slot < 4
            invariant
                slot <= 4,
                at <= replies@.len(),
                got.len() == slot,
                forall|k: int| 0 <= k < slot ==> got[k] == #[trigger] configs@[k]@,
                start == slots_read(
                    self.commands,
                    self.active_profile,
                    key_index,
                    got,
                    seen(replies@),
                    at as nat,
                ),
                whole(
                    dks_read(
                        self.commands,
                        self.active_profile,
                        self.key_count,
                        key_index,
                        seen(replies@),
                    ),
                ) == (match start {
                    PartView::Ask(request) => StepView::Ask(request),
                    PartView::Failed { error, .. } => StepView::Done(Err(error)),
                    PartView::Found { value, .. } => StepView::Done(
                        Ok(
                            DksView {
                                travel: word_at(travels@, key_index as int),
                                modes: modes@,
                                configs: value,
                            },
                        ),
                    ),
                }),
            decreases 4 - slot,
        {
            let layer: KeymatrixLayer = match KeymatrixLayer::dks_slot(slot as u8) {
                Some(layer) => layer,
                None => KeymatrixLayer::Layer0,
            };
            match self.key_config_part(self.active_profile, layer, key_index, replies, at) {
                Part::Ask(request) => {
                    return Step::Ask(request);
                },
                Part::Failed { error, .. } => {
                    return Step::Done(Err(error));
                },
                Part::Found { value, next } => {
                    configs[slot] = value;
                    at = next;
                    proof {
                        got = got.push(value@);
                    }
                },
            }
            slot += 1;
        }
        let config: DksConfig = DksConfig::from_parts(get_word(&travels, idx), modes, configs);
        assert(config.configs() =~= got);
        Step::Done(Ok(config))
    }

    /// Write one key's Dynamic Keystroke travel.
    pub fn set_dks_trigger_point_travel_raw(
        &self,
        key_index: u8,
        trigger_point_travel_raw: u16,
        replies: &[Reply],
    ) -> (r: Step<()>)
        ensures
            r@ == sent(
                seen(replies@),
                seq![
                    key_write(
                        self.commands,
                        self.commands.magnetism.dks_travel,
                        key_index,
                        true,
                        le_bytes(trigger_point_travel_raw),
                    ),
                ],
            ),
    {
        let bytes: Vec<u8> = vec![
            low_byte(trigger_point_travel_raw),
            high_byte(trigger_point_travel_raw),
        ];
        assert(bytes@ =~= le_bytes(trigger_point_travel_raw));
        self.set_magnetism_simple(
            self.commands.magnetism.dks_travel,
            key_index,
            true,
            bytes.as_slice(),
            replies,
        )
    }

    /// Write one key's four packed bytes.
    pub fn set_dks_trigger_modes(&self, key_index: u8, modes: [u8; 4], replies: &[Reply]) -> (r: Step<
        (),
    >)
        ensures
            r@ == sent(
                seen(replies@),
                seq![
                    key_write(
                        self.commands,
                        self.commands.magnetism.dks_trigger_modes_set,
                        key_index,
                        true,
                        modes@,
                    ),
                ],
            ),
    {
        let bytes: Vec<u8> = vec![modes[0], modes[1], modes[2], modes[3]];
        assert(bytes@ =~= modes@);
        self.set_magnetism_simple(
            self.commands.magnetism.dks_trigger_modes_set,
            key_index,
            true,
            bytes.as_slice(),
            replies,
        )
    }

    /// The table writes of a Dynamic Keystroke key.
    fn dks_table_requests(&self, t: &KeyTriggerSettings, config: &DksConfig) -> (r: Vec<Request>)
        ensures
            requests(r@) == dks_table_writes(self.commands, *t, config@),
    {
        let c: &CommandTable = &self.commands;
        let travel: Vec<u8> = vec![
            low_byte(config.trigger_point_travel_raw),
            high_byte(config.trigger_point_travel_raw),
        ];
        assert(travel@ =~= le_bytes(config.trigger_point_travel_raw));
        let m: [u8; 4] = config.trigger_modes();
        let modes: Vec<u8> = vec![m[0], m[1], m[2], m[3]];
        assert(modes@ =~= config@.modes);
        let mut out: Vec<Request> = self.trigger_requests(t);
        let ghost before = out@;
        out.push(write_key(c, c.magnetism.dks_travel, t.key_index, false, travel.as_slice()));
        out.push(
            write_key(
                c,
                c.magnetism.dks_trigger_modes_set,
                t.key_index,
                true,
                modes.as_slice(),
            ),
        );
        assert(requests(out@) =~= requests(before) + seq![
            key_write(*c, c.magnetism.dks_travel, t.key_index, false, travel@),
            key_write(*c, c.magnetism.dks_trigger_modes_set, t.key_index, true, modes@),
        ]);
        out
    }

    /// The keymatrix writes of a Dynamic Keystroke key.
    fn dks_slot_requests(&self, key_index: u8, config: &DksConfig, current: [u8; 4]) -> (r: Vec<
        Request,
    >)
        ensures
            requests(r@) == dks_slot_writes(
                self.active_profile,
                key_index,
                config@.configs,
                current@,
            ),
    {
        let p: Profile = self.active_profile;
        let b0: [u8; 4] = resolve_slot0(config.bindings[0].config, current);
        let mut out: Vec<Request> = Vec::new();
        out.push(write_config(p, key_index, KeymatrixLayer::Layer0, b0, false));
        out.push(
            write_config(p, key_index, KeymatrixLayer::Layer1, config.bindings[1].config, false),
        );
        out.push(
            write_config(p, key_index, KeymatrixLayer::Layer2, config.bindings[2].config, false),
        );
        out.push(
            write_config(p, key_index, KeymatrixLayer::Layer3, config.bindings[3].config, true),
        );
        assert(requests(out@) =~= dks_slot_writes(p, key_index, config@.configs, current@));
        out
    }

    /// Apply Dynamic Keystroke settings to a key: mode, travel, packed bytes, and the
    /// four slots.
    ///
    /// The Rapid Trigger flag stays as it is unless `rapid_trigger` says otherwise. An
    /// empty slot 0 keeps the key's base output.
    pub fn set_dks_config(
        &self,
        key_index: u8,
        config: &DksConfig,
        rapid_trigger: Option<bool>,
        replies: &[Reply],
    ) -> (r: Step<()>)
        ensures
            r@ == whole(
                dks_write(
                    self.commands,
                    self.active_profile,
                    self.has_magnetism,
                    self.key_count,
                    key_index,
                    config@,
                    rapid_trigger,
                    seen(replies@),
                ),
            ),
    {
        match self.triggers_part(replies, 0) {
            Part::Ask(request) => Step::Ask(request),
            Part::Failed { error, .. } => Step::Done(Err(error)),
            Part::Found { value: all, next } => {
                let mut trigger: KeyTriggerSettings = all.key(key_index);
                trigger.mode = KeyMode { code: self.commands.magnetism.dks_mode };
                if let Some(rt) = rapid_trigger {
                    trigger.rapid_trigger = rt;
                }
                let tables: Vec<Request> = self.dks_table_requests(&trigger, config);
                match send_from(tables, replies, next) {
                    Part::Ask(request) => Step::Ask(request),
                    Part::Failed { error, .. } => Step::Done(Err(error)),
                    Part::Found { next, .. } => match self.key_config_part(
                        self.active_profile,
                        KeymatrixLayer::Layer0,
                        key_index,
                        replies,
                        next,
                    ) {
                        Part::Ask(request) => Step::Ask(request),
                        Part::Failed { error, .. } => Step::Done(Err(error)),
                        Part::Found { value: current, next } => send_from(
                            self.dks_slot_requests(key_index, config, current),
                            replies,
                            next,
                        ).into_step(),
                    },
                }
            },
        }
    }

    /// Read the Mod-Tap time of every key from the reply `at` on.
    pub fn modtap_part(&self, replies: &[Reply], at: usize) -> (r: Part<Vec<u16>>)
        requires
            at <= replies@.len(),
        ensures
            r@ == modtap_read(self.commands, self.key_count, seen(replies@), at as nat),
            r.within(at as int, replies@.len() as int),
    {
        let n: usize = self.key_count as usize;
        match self.get_magnetism(
            self.commands.magnetism.modtap_time,
            count_pages(n, INPUT_REPORT_SIZE),
            replies,
            at,
        ) {
            Part::Ask(request) => Part::Ask(request),
            Part::Failed { error, next } => Part::Failed { error, next },
            Part::Found { value, next } => {
                let mut out: Vec<u16> = Vec::new();
                let limit: usize = if value.len() < n {
                    value.len()
                } else {
                    n
                };
                let ghost times = modtap_times(value@, self.key_count);
                let mut i: usize = 0;
                while i < limit
                    invariant
                        times == modtap_times(value@, self.key_count),
                        limit == times.len(),
                        limit <= value@.len(),
                        i <= limit,
                        out@ == times.take(i as int),
                    decreases limit - i,
                {
                    out.push(value[i] as u16 * MODTAP_TIME_STEP_MS);
                    assert(times.take(i + 1) =~= times.take(i as int).push(times[i as int]));
                    i += 1;
                }
                assert(times.take(i as int) =~= times);
                Part::Found { value: out, next }
            },
        }
    }

    /// Read the Mod-Tap decision time of every key, in milliseconds.
    pub fn get_modtap_times(&self, replies: &[Reply]) -> (r: Step<Vec<u16>>)
        ensures
            r@ == whole(modtap_read(self.commands, self.key_count, seen(replies@), 0)),
    {
        self.modtap_part(replies, 0).into_step()
    }

    /// Set one key's Mod-Tap decision time in milliseconds, rounded down to the wire
    /// step.
    pub fn set_modtap_time(&self, key_index: u8, ms: u16, replies: &[Reply]) -> (r: Step<()>)
        ensures
            r@ == sent(
                seen(replies@),
                seq![
                    key_write(
                        self.commands,
                        self.commands.magnetism.modtap_time,
                        key_index,
                        true,
                        seq![modtap_steps(ms)],
                    ),
                ],
            ),
    {
        let tens: u16 = ms / MODTAP_TIME_STEP_MS;
        let steps: u8 = if tens > 255 {
            255
        } else {
            tens as u8
        };
        let payload: Vec<u8> = vec![steps];
        assert(payload@ =~= seq![modtap_steps(ms)]);
        self.set_magnetism_simple(
            self.commands.magnetism.modtap_time,
            key_index,
            true,
            payload.as_slice(),
            replies,
        )
    }

    /// Read the Snap-Tap partner of every key from the reply `at` on.
    pub fn snaptap_part(&self, replies: &[Reply], at: usize) -> (r: Part<Vec<u8>>)
        requires
            at <= replies@.len(),
        ensures
            r@ == snaptap_read(self.commands, self.key_count, seen(replies@), at as nat),
            r.within(at as int, replies@.len() as int),
    {
        let n: usize = self.key_count as usize;
        match self.get_magnetism(
            self.commands.magnetism.snaptap_enable,
            count_pages(n, INPUT_REPORT_SIZE),
            replies,
            at,
        ) {
            Part::Ask(request) => Part::Ask(request),
            Part::Failed { error, next } => Part::Failed { error, next },
            Part::Found { value, next } => {
                let limit: usize = if value.len() < n {
                    value.len()
                } else {
                    n
                };
                let out: Vec<u8> = sub_bytes(value.as_slice(), 0, limit);
                assert(out@ =~= up_to(value@, n as nat));
                Part::Found { value: out, next }
            },
        }
    }

    /// Read the Snap-Tap partner of every key; [`SNAPTAP_UNBOUND`] means none.
    pub fn get_snaptap_binds(&self, replies: &[Reply]) -> (r: Step<Vec<u8>>)
        ensures
            r@ == whole(snaptap_read(self.commands, self.key_count, seen(replies@), 0)),
    {
        self.snaptap_part(replies, 0).into_step()
    }

    /// Bind two keys as a Snap-Tap pair. Both directions are written.
    pub fn set_snaptap_pair(&self, key_a: u8, key_b: u8, replies: &[Reply]) -> (r: Step<()>)
        ensures
            r@ == sent(seen(replies@), pair_writes(self.commands, key_a, key_b)),
    {
        let c: &CommandTable = &self.commands;
        let a: Vec<u8> = vec![key_a];
        let b: Vec<u8> = vec![key_b];
        assert(a@ =~= seq![key_a] && b@ =~= seq![key_b]);
        let mut list: Vec<Request> = Vec::new();
        list.push(write_key(c, c.magnetism.snaptap_enable, key_a, false, b.as_slice()));
        list.push(write_key(c, c.magnetism.snaptap_enable, key_b, true, a.as_slice()));
        assert(requests(list@) =~= pair_writes(self.commands, key_a, key_b));
        send_all(list, replies)
    }

    /// Clear a key's Snap-Tap binding, and its partner's, so that the pair is dissolved.
    pub fn clear_snaptap(&self, key_index: u8, replies: &[Reply]) -> (r: Step<()>)
        ensures
            r@ == (match snaptap_read(self.commands, self.key_count, seen(replies@), 0) {
                PartView::Ask(request) => StepView::Ask(request),
                PartView::Failed { error, .. } => StepView::Done(Err(error)),
                PartView::Found { value: binds, next } => whole(
                    sent_from(
                        unbind_writes(self.commands, unbound_keys(binds, key_index)),
                        seen(replies@),
                        next,
                    ),
                ),
            }),
    {
        match self.snaptap_part(replies, 0) {
            Part::Ask(request) => Step::Ask(request),
            Part::Failed { error, .. } => Step::Done(Err(error)),
            Part::Found { value: binds, next } => {
                let c: &CommandTable = &self.commands;
                let idx: usize = key_index as usize;
                let partner: u8 = if idx < binds.len() {
                    binds[idx]
                } else {
                    SNAPTAP_UNBOUND
                };
                let valid: bool = partner != SNAPTAP_UNBOUND && (partner as usize) < binds.len();
                let payload: Vec<u8> = vec![SNAPTAP_UNBOUND];
                assert(payload@ =~= seq![SNAPTAP_UNBOUND]);
                let mut list: Vec<Request> = Vec::new();
                list.push(
                    write_key(
                        c,
                        c.magnetism.snaptap_enable,
                        key_index,
                        !valid,
                        payload.as_slice(),
                    ),
                );
                if valid {
                    list.push(
                        write_key(
                            c,
                            c.magnetism.snaptap_enable,
                            partner,
                            true,
                            payload.as_slice(),
                        ),
                    );
                }
                assert(requests(list@) =~= unbind_writes(
                    self.commands,
                    unbound_keys(binds@, key_index),
                ));
                send_from(list, replies, next).into_step()
            },
        }
    }

    /// Start or stop the calibration of released keys.
    pub fn calibrate_min(&self, start: bool, replies: &[Reply]) -> (r: Step<()>)
        ensures
            r@ == sent(
                seen(replies@),
                seq![command(self.commands.set_magnetism_cal, seq![flag(start)])],
            ),
    {
        let data: Vec<u8> = vec![
            if start {
                1
            } else {
                0
            },
        ];
        assert(data@ =~= seq![flag(start)]);
        send_one(command_request(self.commands.set_magnetism_cal, data), replies)
    }

    /// Start or stop the calibration of pressed keys.
    pub fn calibrate_max(&self, start: bool, replies: &[Reply]) -> (r: Step<()>)
        ensures
            r@ == sent(
                seen(replies@),
                seq![command(self.commands.set_magnetism_max_cal, seq![flag(start)])],
            ),
    {
        let data: Vec<u8> = vec![
            if start {
                1
            } else {
                0
            },
        ];
        assert(data@ =~= seq![flag(start)]);
        send_one(command_request(self.commands.set_magnetism_max_cal, data), replies)
    }

    /// Get the calibration values of a page of keys, 32 keys to a page. A key that was
    /// pressed to the bottom has at least 300.
    pub fn get_calibration_progress(&self, page: u8, replies: &[Reply]) -> (r: Step<Vec<u16>>)
        ensures
            r@ == asked(
                seen(replies@),
                raw(
                    self.commands.get_multi_magnetism,
                    seq![self.commands.magnetism.calibration, 1u8, page],
                    ChecksumType::Bit7,
                    Delivery::QueryRaw,
                ),
                |d: Seq<u8>| Ok(words(d, d.len())),
            ),
    {
        match first(replies) {
            Answer::Open => {
                let data: Vec<u8> = vec![self.commands.magnetism.calibration, 1, page];
                assert(data@ =~= seq![self.commands.magnetism.calibration, 1u8, page]);
                Step::Ask(
                    Request::frame(
                        self.commands.get_multi_magnetism,
                        data,
                        ChecksumType::Bit7,
                        Delivery::QueryRaw,
                    ),
                )
            },
            Answer::Failed(e) => Step::Done(Err(e)),
            Answer::Data(d) => Step::Done(Ok(TriggerSettings::decode_u16_values(d, d.len()))),
        }
    }
}

} // verus!
