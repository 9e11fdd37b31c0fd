//! What the small parts promise: bytes and words, numbers of profiles and modes, and what a
//! keyboard is told about itself.

use crate::bits::{copy_bytes, double_word, high_byte, low_byte, sub_bytes, upper_nibble, word};
use crate::depth::DepthEvent;
use crate::exchange::{asked, seen, Reply, Step, StepView};
use crate::keyboard::KeyboardInterface;
use crate::keymap::{KeyRow, LoadStage};
use crate::laws::board::{asked_for, goes_through, lemma_sent_run, Board};
use crate::laws::triggers::{lemma_words_written, only_table_changes, tables_apart, word_stored};
use crate::led::{cap, speed_to_wire, LedMode, LedParams, LED_MODE_MAX, SPEED_MAX};
use crate::magnetism::{decode_words_padded, get_byte, get_word, TriggerSettings};
use crate::protocol::{KeymatrixLayer, Layer, Profile};
use crate::registry::ProfileRegistry;
use crate::triggers::{table_write, up_to, word_bytes};
use crate::tui_state::{App, LedInfo, LoadState};
use vstd::prelude::*;

verus! {

/// A word is its low byte and 256 times its high byte, and is made of them again.
pub proof fn a_word_is_made_of_its_bytes(w: u16, lo: u8, hi: u8, back: u16)
    requires
        call_ensures(low_byte, (w,), lo),
        call_ensures(high_byte, (w,), hi),
        call_ensures(word, (lo, hi), back),
    ensures
        w == lo + 256 * hi,
        back == w,
{
}

/// Two words make a double word, the lower one first.
pub proof fn a_double_word_is_made_of_words(
    a: u8,
    b: u8,
    c: u8,
    d: u8,
    low: u16,
    high: u16,
    all: u32,
)
    requires
        call_ensures(word, (a, b), low),
        call_ensures(word, (c, d), high),
        call_ensures(double_word, (a, b, c, d), all),
    ensures
        all == low + 0x10000 * high,
{
}

/// A copied part holds the bytes from its start up to its end, and a copy all of them.
pub proof fn a_part_holds_its_bytes(
    v: &[u8],
    start: usize,
    end: usize,
    part: Vec<u8>,
    whole: Vec<u8>,
)
    requires
        start <= end <= v@.len(),
        call_ensures(sub_bytes, (v, start, end), part),
        call_ensures(copy_bytes, (v,), whole),
    ensures
        part@.len() == end - start,
        forall|i: int| 0 <= i < end - start ==> #[trigger] part@[i] == v@[start + i],
        whole@.len() == v@.len(),
        forall|i: int| 0 <= i < v@.len() ==> #[trigger] whole@[i] == v@[i],
{
}

/// Moving a byte's lower half up loses the upper half and keeps the lower one.
pub proof fn the_lower_half_moves_up(b: u8, r: u8)
    requires
        call_ensures(upper_nibble, (b,), r),
    ensures
        r % 16 == 0,
        r / 16 == b % 16,
{
}

/// Values are read two bytes each, the low one first; at most as many as asked for, and a
/// single byte at the end is left.
pub proof fn values_are_read_two_bytes_each(data: &[u8], count: usize, r: Vec<u16>)
    requires
        call_ensures(TriggerSettings::decode_u16_values, (data, count), r),
    ensures
        r@.len() <= count,
        2 * r@.len() <= data@.len(),
        r@.len() == count || data@.len() < 2 * r@.len() + 2,
        forall|i: int|
            0 <= i < r@.len() ==> #[trigger] r@[i] == data@[2 * i] + 256 * data@[2 * i + 1],
{
}

/// Where a single byte at the end counts, it is the low byte of a last value.
pub proof fn a_last_byte_is_a_value(data: &[u8], count: usize, r: Vec<u16>)
    requires
        call_ensures(decode_words_padded, (data, count), r),
    ensures
        r@.len() <= count,
        r@.len() == count || 2 * r@.len() == data@.len() || 2 * r@.len() == data@.len() + 1,
        forall|i: int|
            0 <= i < r@.len() && 2 * i + 1 < data@.len() ==> #[trigger] r@[i] == data@[2 * i] + 256
                * data@[2 * i + 1],
        forall|i: int|
            0 <= i < r@.len() && 2 * i + 1 == data@.len() ==> #[trigger] r@[i] == data@[2 * i],
{
}

/// A value that is there is read, and one that is not is zero.
pub proof fn missing_values_are_zero(
    values: &Vec<u16>,
    bytes: &[u8],
    i: usize,
    w: u16,
    b: u8,
)
    requires
        call_ensures(get_word, (values, i), w),
        call_ensures(get_byte, (bytes, i), b),
    ensures
        i < values@.len() ==> w == values@[i as int],
        i >= values@.len() ==> w == 0,
        i < bytes@.len() ==> b == bytes@[i as int],
        i >= bytes@.len() ==> b == 0,
{
}

/// A mode has the number that it was made from, and there are no modes above the last.
pub proof fn modes_keep_their_number(code: u8, r: Option<LedMode>, back: u8)
    requires
        call_ensures(LedMode::from_u8, (code,), r),
        r matches Some(m) ==> call_ensures(LedMode::as_u8, (&m,), back),
    ensures
        r is Some <==> code <= LED_MODE_MAX,
        r is Some ==> back == code,
{
}

/// Dark is the mode with number zero.
pub proof fn dark_is_mode_zero(off: LedMode, number: u8)
    requires
        call_ensures(LedMode::off, (), off),
        call_ensures(LedMode::as_u8, (&off,), number),
    ensures
        number == 0,
{
}

/// A value is kept up to its maximum, and is the maximum above it.
pub proof fn a_cap_only_lowers(v: u8, max: u8, r: u8)
    requires
        call_ensures(cap, (v, max), r),
    ensures
        r <= max,
        v <= max ==> r == v,
        v > max ==> r == max,
{
}

/// On the wire a faster speed is the smaller number, and inverting twice gives the speed.
pub proof fn faster_is_smaller_on_the_wire(a: u8, b: u8, wire_a: u8, wire_b: u8, back: u8)
    requires
        a < b <= SPEED_MAX,
        call_ensures(speed_to_wire, (a,), wire_a),
        call_ensures(speed_to_wire, (b,), wire_b),
        call_ensures(speed_to_wire, (wire_a,), back),
    ensures
        wire_b < wire_a <= SPEED_MAX,
        back == a,
{
}

/// A speed above the fastest is the fastest.
pub proof fn too_fast_is_fastest(speed: u8, wire: u8)
    requires
        speed >= SPEED_MAX,
        call_ensures(speed_to_wire, (speed,), wire),
    ensures
        wire == 0,
{
}

/// A profile is found by its index again, and is shown with the number after it.
pub proof fn profiles_keep_their_index(
    profile: Profile,
    index: u8,
    number: u8,
    back: Result<Profile, crate::error::KeyboardError>,
)
    requires
        call_ensures(Profile::get, (&profile,), index),
        call_ensures(Profile::number, (&profile,), number),
        call_ensures(Profile::from_index, (index,), back),
    ensures
        back matches Ok(p) && p == profile,
        number == index + 1,
        1 <= number <= 4,
{
}

/// There are four profiles, and no index beyond gives one.
pub proof fn there_are_four_profiles(
    index: u8,
    r: Result<Profile, crate::error::KeyboardError>,
)
    requires
        call_ensures(Profile::from_index, (index,), r),
    ensures
        r is Ok <==> index < 4,
        r matches Ok(p) ==> (index == 0 ==> p == Profile::First) && (index == 1 ==> p
            == Profile::Second) && (index == 2 ==> p == Profile::Third) && (index == 3 ==> p
            == Profile::Fourth),
{
}

/// A keystroke slot lies in the layer with its number, and there are four.
pub proof fn slots_lie_in_their_layer(slot: u8, r: Option<KeymatrixLayer>, number: u8)
    requires
        call_ensures(KeymatrixLayer::dks_slot, (slot,), r),
        r matches Some(l) ==> call_ensures(KeymatrixLayer::get, (&l,), number),
    ensures
        r is Some <==> slot < 4,
        r is Some ==> number == slot,
{
}

/// The base layer and the first one lie in the first two matrix layers, and the Fn layer in
/// none.
pub proof fn only_fn_lies_in_no_layer(layer: Layer, r: Option<KeymatrixLayer>, number: u8)
    requires
        call_ensures(Layer::keymatrix_layer, (&layer,), r),
        r matches Some(l) ==> call_ensures(KeymatrixLayer::get, (&l,), number),
    ensures
        r is None <==> layer == Layer::Fn,
        layer == Layer::Base ==> number == 0,
        layer == Layer::Layer1 ==> number == 1,
{
}

/// A profile that is made active is the active one, and nothing else of the keyboard changes.
pub proof fn a_profile_set_is_active(kb: &mut KeyboardInterface, profile: Profile, now: Profile)
    requires
        call_ensures(KeyboardInterface::set_active_profile, (kb, profile), ()),
        call_ensures(KeyboardInterface::active_profile, (&*final(kb),), now),
    ensures
        now == profile,
        final(kb).device == old(kb).device,
        final(kb).key_count == old(kb).key_count,
        final(kb).commands == old(kb).commands,
        final(kb).matrix_key_names == old(kb).matrix_key_names,
        final(kb).matrix_defaults == old(kb).matrix_defaults,
        final(kb).non_analog_positions == old(kb).non_analog_positions,
{
}

/// Names that are set are told by position, and a position without one has an empty name.
pub proof fn names_set_are_told(
    kb: &mut KeyboardInterface,
    names: Vec<String>,
    position: usize,
    name: &str,
)
    requires
        call_ensures(KeyboardInterface::set_matrix_key_names, (kb, names), ()),
        call_ensures(KeyboardInterface::matrix_key_name, (&*final(kb), position), name),
    ensures
        position < names@.len() ==> name@ == names@[position as int]@,
        position >= names@.len() ==> name@.len() == 0,
        final(kb).matrix_defaults == old(kb).matrix_defaults,
        final(kb).key_count == old(kb).key_count,
{
    reveal_strlit("");
}

/// Factory keys that are set are told by position; zero stands for none.
pub proof fn defaults_set_are_told(
    kb: &mut KeyboardInterface,
    defaults: Vec<u8>,
    position: usize,
    key: Option<u8>,
)
    requires
        call_ensures(KeyboardInterface::set_matrix_defaults, (kb, defaults), ()),
        call_ensures(KeyboardInterface::matrix_default, (&*final(kb), position), key),
    ensures
        position < defaults@.len() && defaults@[position as int] != 0 ==> key == Some(
            defaults@[position as int],
        ),
        position < defaults@.len() && defaults@[position as int] == 0 ==> key is None,
        position >= defaults@.len() ==> key is None,
        final(kb).matrix_key_names == old(kb).matrix_key_names,
{
}

/// The positions that are set as not analog are those, and no others.
pub proof fn positions_set_are_not_analog(
    kb: &mut KeyboardInterface,
    positions: Vec<u8>,
    position: u8,
    r: bool,
)
    requires
        call_ensures(KeyboardInterface::set_non_analog_positions, (kb, positions), ()),
        call_ensures(KeyboardInterface::is_non_analog, (&*final(kb), position as usize), r),
    ensures
        r <==> exists|i: int| 0 <= i < positions@.len() && #[trigger] positions@[i] == position,
{
    assert(position as usize % 256 == position);
}

/// A keyboard without a name is named by its two numbers, four digits each.
pub proof fn a_nameless_keyboard_has_its_numbers(kb: &KeyboardInterface, name: String)
    requires
        call_ensures(KeyboardInterface::device_name, (kb,), name),
    ensures
        kb.device.product_name matches Some(n) ==> name@ == n@,
        kb.device.product_name is None ==> name@.len() == 9 && name@[4] == ':',
{
    reveal_strlit(":");
}

/// Values that are written to a trigger table are stored there, one per key from the first
/// key on, and nothing else changes.
pub proof fn values_written_are_stored(
    kb: &KeyboardInterface,
    table: u8,
    values: &[u16],
    board: Board,
    given: Seq<&[Reply]>,
    steps: Seq<Step<()>>,
    replies: Seq<Reply>,
)
    requires
        board.full(),
        tables_apart(kb.commands.magnetism),
        table == kb.commands.magnetism.press_travel || table == kb.commands.magnetism.lift_travel
            || table == kb.commands.magnetism.rt_press || table == kb.commands.magnetism.rt_lift
            || table == kb.commands.magnetism.bottom_deadzone || table
            == kb.commands.magnetism.top_deadzone,
        given.len() == steps.len(),
        goes_through(steps, replies),
        forall|m: int|
            0 <= m < steps.len() ==> (#[trigger] given[m])@ == replies.take(m) && call_ensures(
                KeyboardInterface::set_magnetism_u16,
                (kb, table, values, given[m]),
                steps[m],
            ),
    ensures
        steps.last() == Step::<()>::Done(Ok(())),
        ({
            let after = board.after_all(kb.commands, asked_for(steps));
            &&& forall|i: int|
                0 <= i < kb.key_count && i < values@.len() ==> #[trigger] word_stored(
                    (after.tables)(table),
                    i,
                ) == values@[i]
            &&& only_table_changes(board, after, table)
        }),
{
    let c = kb.commands;
    let kept = up_to(values@, kb.key_count as nat);
    let list = table_write(c, table, word_bytes(kept));
    assert forall|m: int| 0 <= m < steps.len() implies (#[trigger] steps[m])@
        == crate::exchange::sent(seen(replies.take(m)), list) by {
        assert(given[m]@ == replies.take(m));
    }
    lemma_sent_run(list, steps, replies);
    lemma_words_written(board, c, table, kept);
    let after = board.after_all(c, asked_for(steps));
    assert forall|i: int| 0 <= i < kb.key_count && i < values@.len() implies #[trigger] word_stored(
        (after.tables)(table),
        i,
    ) == values@[i] by {
        assert(kept[i] == values@[i]);
    }
}

/// Calibration values are read out of the reply two bytes each, the low one first.
pub proof fn calibration_values_are_read(
    kb: &KeyboardInterface,
    page: u8,
    replies: &[Reply],
    data: Vec<u8>,
    values: Vec<u16>,
)
    requires
        replies@.len() == 1,
        replies@[0] == Ok::<Vec<u8>, crate::error::KeyboardError>(data),
        call_ensures(
            KeyboardInterface::get_calibration_progress,
            (kb, page, replies),
            Step::Done(Ok(values)),
        ),
    ensures
        values@.len() == data@.len() / 2,
        forall|i: int|
            0 <= i < values@.len() ==> #[trigger] values@[i] == data@[2 * i] + 256 * data@[2 * i
                + 1],
{
    let step = Step::<Vec<u16>>::Done(Ok(values));
    assert(seen(replies@)[0] == Ok::<Seq<u8>, crate::error::ErrorView>(data@));
    assert(step@ == StepView::<Seq<u16>>::Done(Ok(values@)));
}

/// Which page of calibration values is asked for is in the request.
pub proof fn a_calibration_page_is_asked_for(
    kb: &KeyboardInterface,
    page: u8,
    replies: &[Reply],
    step: Step<Vec<u16>>,
)
    requires
        replies@.len() == 0,
        call_ensures(KeyboardInterface::get_calibration_progress, (kb, page, replies), step),
    ensures
        step@ matches StepView::Ask(q) && q matches crate::protocol::RequestView::Raw(f)
            && f.cmd == kb.commands.get_multi_magnetism && f.data.len() == 3 && f.data[0]
            == kb.commands.magnetism.calibration && f.data[2] == page,
{
}

/// LED parameters are asked for, and are what the reply tells.
pub proof fn led_parameters_are_told(
    kb: &KeyboardInterface,
    reply: LedParams,
    first: Step<LedParams>,
    second: Step<LedParams>,
)
    requires
        call_ensures(KeyboardInterface::get_led_params, (kb, None), first),
        call_ensures(KeyboardInterface::get_led_params, (kb, Some(Ok(reply))), second),
    ensures
        first is Ask,
        second matches Step::Done(Ok(p)) && p == reply,
{
}

/// The lights that are shown are those of the parameters.
pub proof fn lights_shown_are_the_parameters(p: LedParams, r: LedInfo, number: u8)
    requires
        call_ensures(LedInfo::from_params, (p,), r),
        call_ensures(LedMode::as_u8, (&p.mode,), number),
    ensures
        r.mode == number,
        r.brightness == p.brightness,
        r.speed == p.speed,
        r.r == p.color.r,
        r.g == p.color.g,
        r.b == p.color.b,
{
}

/// A key counts as customized exactly if something about it is not as from the factory.
pub proof fn a_plain_key_is_not_customized(row: KeyRow, r: bool)
    requires
        call_ensures(KeyRow::is_customized, (&row,), r),
    ensures
        !r <==> row.mode.code == 0 && !row.rapid_trigger && row.fn_action is None && !(
        row.output_remapped@[0] || row.output_remapped@[1] || row.output_remapped@[2]
            || row.output_remapped@[3]),
{
    let s = row.output_remapped@;
    assert(s.len() == 4);
    if s.contains(true) {
        let k = choose|k: int| 0 <= k < s.len() && s[k] == true;
        assert(k == 0 || k == 1 || k == 2 || k == 3);
    }
}

/// Stages of a load are told in order, each once, up to the one that is reached.
pub proof fn stages_are_told_in_order(told: usize, stage: usize, r: Vec<LoadStage>)
    requires
        stage < crate::keymap::LOAD_STAGE_COUNT,
        call_ensures(crate::keymap::stages_due, (told, stage), r),
    ensures
        told <= stage ==> r@.len() == stage - told + 1,
        told > stage ==> r@.len() == 0,
        forall|k: int| 0 <= k < r@.len() ==> (#[trigger] r@[k]).done == told + k,
{
    let nums = r@.map_values(|s: LoadStage| s.done as nat);
    let wanted = crate::keymap::due(told as nat, stage as nat);
    assert(nums == wanted);
    assert forall|k: int| 0 <= k < r@.len() implies (#[trigger] r@[k]).done == told + k by {
        assert(nums[k] == r@[k].done);
        assert(wanted[k] == told + k);
    }
    assert(nums.len() == r@.len());
}

/// A depth report is the key and the depth, the low byte first.
pub proof fn a_report_holds_key_and_depth(raw: [u8; 3], r: DepthEvent)
    requires
        call_ensures(DepthEvent::from_le_raw, (raw,), r),
    ensures
        r.key_index == raw@[0],
        r.depth_raw == raw@[1] + 256 * raw@[2],
{
}

/// There is a title for every tab.
pub proof fn every_tab_has_a_title(app: &App, count: usize, names: Vec<&'static str>)
    requires
        call_ensures(App::tab_count, (app,), count),
        call_ensures(App::tab_names, (app,), names),
    ensures
        names@.len() == count,
        count == 4 <==> app.notify.enabled,
        count == 3 <==> !app.notify.enabled,
{
    assert(names@.map_values(|t: &'static str| t@).len() == names@.len());
}

/// Key mappings begin to load exactly if there is a keyboard; its pages count from there.
pub proof fn mappings_load_from_a_keyboard(app: &mut App, pages: Option<u64>, r: bool)
    requires
        call_ensures(App::load_key_mapping, (app, pages), r),
    ensures
        r <==> pages is Some,
        pages matches Some(n) ==> final(app).loading.key_mapping == LoadState::Loading
            && final(app).key_mapping.pages_start == n && final(app).key_mapping.progress is None,
        pages is None ==> *final(app) == *old(app),
        final(app).tab == old(app).tab,
        final(app).selected == old(app).selected,
        final(app).loading.triggers == old(app).loading.triggers,
{
}

/// A database that was loaded takes the place of the one before, and one that was not leaves
/// it; the profiles stay.
pub proof fn a_failed_load_keeps_the_database(
    registry: &mut ProfileRegistry,
    database: Result<crate::device_db::DeviceDatabase, String>,
)
    requires
        old(registry).wf(),
        call_ensures(ProfileRegistry::load_device_database, (registry, database), ()),
    ensures
        database matches Ok(db) ==> final(registry).database() == Some(db),
        database is Err ==> final(registry).database() == old(registry).database(),
        final(registry).registered() == old(registry).registered(),
{
}

/// The USB numbers that are listed are those under which a profile is found.
pub proof fn listed_numbers_are_found(
    registry: &ProfileRegistry,
    list: Vec<(u16, u16)>,
    profiles: Vec<crate::registry::DeviceProfile>,
)
    requires
        registry.wf(),
        call_ensures(ProfileRegistry::all_vid_pids, (registry,), list),
        call_ensures(ProfileRegistry::all_profiles, (registry,), profiles),
    ensures
        forall|i: int|
            0 <= i < list@.len() ==> registry.usb_profile(
                (#[trigger] list@[i]).0,
                list@[i].1,
            ) is Some,
        forall|i: int, j: int| 0 <= i < j < list@.len() ==> list@[i] != list@[j],
        profiles@.len() == registry.registered().len(),
{
    assert forall|i: int| 0 <= i < list@.len() implies registry.usb_profile(
        (#[trigger] list@[i]).0,
        list@[i].1,
    ) is Some by {
        let (vid, pid) = list@[i];
        assert(list@.contains((vid, pid)));
    }
    let views = profiles@.map_values(|p: crate::registry::DeviceProfile| p@);
    vstd::seq_lib::to_multiset_len(views);
    vstd::seq_lib::to_multiset_len(registry.registered());
    assert(views.len() == profiles@.len());
}

} // verus!
