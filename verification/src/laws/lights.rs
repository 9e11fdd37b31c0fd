//! What the lights promise.

use crate::exchange::{reply_view, seen, sent, Reply, Step, StepView};
use crate::keyboard::KeyboardInterface;
use crate::laws::board::{asked_for, goes_through, lemma_sent_run, page_of};
use crate::laws::settings::{bad_parameter, lemma_outcome, outcome, unexpected_answer};
use crate::led::{LedMode, LedParams, RgbColor};
use crate::lights::{
    color_chunk, color_chunks, full_colors, repeated_list, sends, sparse_chunk, sparse_chunks,
    userpic_blocks, userpic_pages,
};
use crate::protocol::RequestView;
use vstd::prelude::*;

verus! {

/// The LED parameters go out in this order: mode, speed, brightness, option, red, green, blue.
/// A higher speed is a smaller byte; brightness and speed end at 4. Outside the picture mode
/// the color is the one asked for, and the option says whether colors cycle.
pub proof fn led_parameters_go_out_in_their_places(
    kb: &KeyboardInterface,
    mode: u8,
    brightness: u8,
    speed: u8,
    color: RgbColor,
    dazzle: bool,
    none: &[Reply],
    one: &[Reply],
    asks: Step<()>,
    ends: Step<()>,
)
    requires
        none@.len() == 0,
        one@.len() == 1,
        call_ensures(KeyboardInterface::set_led, (kb, mode, brightness, speed, color, dazzle, none), asks),
        call_ensures(KeyboardInterface::set_led, (kb, mode, brightness, speed, color, dazzle, one), ends),
    ensures
        ({
            &&& asks@ matches StepView::Ask(q)
            &&& q matches RequestView::Raw(f)
            &&& f.cmd == kb.commands.set_ledparam
            &&& f.data.len() == 7
            &&& f.data[0] == mode
            &&& speed <= 4 ==> f.data[1] + speed == 4
            &&& speed > 4 ==> f.data[1] == 0
            &&& brightness <= 4 ==> f.data[2] == brightness
            &&& brightness > 4 ==> f.data[2] == 4
            &&& mode != 13 ==> f.data[3] == (if dazzle { 7 } else { kb.commands.dazzle_off })
            &&& mode != 13 ==> f.data[4] == color.r && f.data[5] == color.g && f.data[6] == color.b
            &&& mode == 13 ==> f.data.skip(3) == seq![0u8, 0u8, 200u8, 200u8]
        }),
        ends@ == outcome(one@[0]),
{
    if mode == 13 {
        assert(asks@->Ask_0->Raw_0.data.skip(3) =~= seq![0u8, 0u8, 200u8, 200u8]);
    }
    lemma_outcome(one@);
}

/// In the picture mode the option names the slot in its upper half; in any other mode the
/// slot does not matter.
pub proof fn picture_mode_names_its_slot(
    kb: &KeyboardInterface,
    mode: u8,
    brightness: u8,
    speed: u8,
    color: RgbColor,
    dazzle: bool,
    userpic_slot: u8,
    none: &[Reply],
    one: &[Reply],
    asks: Step<()>,
    ends: Step<()>,
)
    requires
        none@.len() == 0,
        one@.len() == 1,
        call_ensures(KeyboardInterface::set_led_with_option, (kb, mode, brightness, speed, color, dazzle, userpic_slot, none), asks),
        call_ensures(KeyboardInterface::set_led_with_option, (kb, mode, brightness, speed, color, dazzle, userpic_slot, one), ends),
    ensures
        ({
            &&& asks@ matches StepView::Ask(q)
            &&& q matches RequestView::Raw(f)
            &&& f.cmd == kb.commands.set_ledparam
            &&& f.data.len() == 7
            &&& f.data[0] == mode
            &&& speed <= 4 ==> f.data[1] + speed == 4
            &&& speed > 4 ==> f.data[1] == 0
            &&& brightness <= 4 ==> f.data[2] == brightness
            &&& brightness > 4 ==> f.data[2] == 4
            &&& mode == 13 && userpic_slot < 16 ==> f.data[3] == 16 * userpic_slot
            &&& mode == 13 ==> f.data[4] == 0 && f.data[5] == 200 && f.data[6] == 200
            &&& mode != 13 ==> f.data[3] == (if dazzle { 7 } else { kb.commands.dazzle_off })
            &&& mode != 13 ==> f.data[4] == color.r && f.data[5] == color.g && f.data[6] == color.b
        }),
        ends@ == outcome(one@[0]),
{
    lemma_outcome(one@);
}

/// The side LED parameters go out in this order: mode, speed, brightness, option, red, green,
/// blue. Their speed is not turned round; brightness and speed end at 4.
pub proof fn side_led_parameters_go_out_in_their_places(
    kb: &KeyboardInterface,
    params: &LedParams,
    none: &[Reply],
    one: &[Reply],
    asks: Step<()>,
    ends: Step<()>,
)
    requires
        none@.len() == 0,
        one@.len() == 1,
        call_ensures(KeyboardInterface::set_side_led_params, (kb, params, none), asks),
        call_ensures(KeyboardInterface::set_side_led_params, (kb, params, one), ends),
    ensures
        ({
            &&& asks@ matches StepView::Ask(q)
            &&& q matches RequestView::Raw(f)
            &&& f.cmd == kb.commands.set_sledparam
            &&& f.data.len() == 7
            &&& f.data[0] == params.mode.number()
            &&& params.speed <= 4 ==> f.data[1] == params.speed
            &&& params.speed > 4 ==> f.data[1] == 4
            &&& params.brightness <= 4 ==> f.data[2] == params.brightness
            &&& params.brightness > 4 ==> f.data[2] == 4
            &&& f.data[3] == params.direction
            &&& f.data[4] == params.color.r && f.data[5] == params.color.g && f.data[6] == params.color.b
        }),
        ends@ == outcome(one@[0]),
{
    lemma_outcome(one@);
}

/// The main LED parameters go out as they are.
pub proof fn main_led_parameters_go_out_whole(
    kb: &KeyboardInterface,
    params: &LedParams,
    none: &[Reply],
    one: &[Reply],
    asks: Step<()>,
    ends: Step<()>,
)
    requires
        none@.len() == 0,
        one@.len() == 1,
        call_ensures(KeyboardInterface::set_led_params, (kb, params, none), asks),
        call_ensures(KeyboardInterface::set_led_params, (kb, params, one), ends),
    ensures
        ({
            &&& asks@ matches StepView::Ask(q)
            &&& q == RequestView::Led(*params)
        }),
        ends@ == outcome(one@[0]),
{
    lemma_outcome(one@);
}

/// A music mode carries its style in the upper half of the option byte and 4 in the lower
/// half for a color of its own, which follows.
pub proof fn music_modes_carry_their_style(
    kb: &KeyboardInterface,
    mode: u8,
    style: u8,
    brightness: u8,
    color: Option<RgbColor>,
    none: &[Reply],
    one: &[Reply],
    asks: Step<()>,
    ends: Step<()>,
)
    requires
        none@.len() == 0,
        one@.len() == 1,
        call_ensures(KeyboardInterface::set_music_viz_mode, (kb, mode, style, brightness, color, none), asks),
        call_ensures(KeyboardInterface::set_music_viz_mode, (kb, mode, style, brightness, color, one), ends),
    ensures
        ({
            &&& asks@ matches StepView::Ask(q)
            &&& q matches RequestView::Raw(f)
            &&& f.cmd == kb.commands.set_ledparam
            &&& f.data.len() == 7
            &&& f.data[0] == mode
            &&& f.data[1] == 0
            &&& brightness <= 4 ==> f.data[2] == brightness
            &&& brightness > 4 ==> f.data[2] == 4
            &&& style < 16 && color is Some ==> f.data[3] == 16 * style + 4
            &&& style < 16 && color is None ==> f.data[3] == (16 * style) as u8 | kb.commands.dazzle_off
            &&& color matches Some(c) ==> f.data[4] == c.r && f.data[5] == c.g && f.data[6] == c.b
            &&& color is None ==> f.data[4] == 0 && f.data[5] == 0 && f.data[6] == 0
        }),
        ends@ == outcome(one@[0]),
{
    let up = ((style % 16) * 16) as u8;
    assert(up % 16 == 0);
    assert(up | 4u8 == up + 4) by (bit_vector)
        requires
            up % 16 == 0,
    ;
    lemma_outcome(one@);
}

/// A page of streamed colors names the page and holds 54 bytes of colors, black where the
/// data ends.
pub proof fn streamed_pages_hold_their_colors(
    kb: &KeyboardInterface,
    page: u8,
    rgb_data: &[u8],
    none: &[Reply],
    one: &[Reply],
    asks: Step<()>,
    ends: Step<()>,
)
    requires
        none@.len() == 0,
        one@.len() == 1,
        call_ensures(KeyboardInterface::stream_led_page, (kb, page, rgb_data, none), asks),
        call_ensures(KeyboardInterface::stream_led_page, (kb, page, rgb_data, one), ends),
    ensures
        ({
            &&& asks@ matches StepView::Ask(q)
            &&& q matches RequestView::Raw(f)
            &&& f.cmd == kb.commands.led_stream
            &&& f.data.len() == 55
            &&& f.data[0] == page
            &&& forall|i: int|
                0 <= i < 54 ==> #[trigger] f.data[i + 1] == (if i < rgb_data@.len() {
                    rgb_data@[i]
                } else {
                    0
                })
        }),
        ends@ == outcome(one@[0]),
{
    lemma_outcome(one@);
}

/// Showing streamed colors is its own command byte.
pub proof fn streamed_colors_are_shown(
    kb: &KeyboardInterface,
    none: &[Reply],
    one: &[Reply],
    asks: Step<()>,
    ends: Step<()>,
)
    requires
        none@.len() == 0,
        one@.len() == 1,
        call_ensures(KeyboardInterface::stream_led_commit, (kb, none), asks),
        call_ensures(KeyboardInterface::stream_led_commit, (kb, one), ends),
    ensures
        ({
            &&& asks@ matches StepView::Ask(q)
            &&& q matches RequestView::Raw(f)
            &&& f.cmd == kb.commands.led_stream
            &&& f.data == seq![0xFFu8]
        }),
        ends@ == outcome(one@[0]),
{
    lemma_outcome(one@);
}

/// Ending a streaming session is its own command byte.
pub proof fn streaming_is_ended(
    kb: &KeyboardInterface,
    none: &[Reply],
    one: &[Reply],
    asks: Step<()>,
    ends: Step<()>,
)
    requires
        none@.len() == 0,
        one@.len() == 1,
        call_ensures(KeyboardInterface::stream_led_release, (kb, none), asks),
        call_ensures(KeyboardInterface::stream_led_release, (kb, one), ends),
    ensures
        ({
            &&& asks@ matches StepView::Ask(q)
            &&& q matches RequestView::Raw(f)
            &&& f.cmd == kb.commands.led_stream
            &&& f.data == seq![0xFEu8]
        }),
        ends@ == outcome(one@[0]),
{
    lemma_outcome(one@);
}

/// Side LED parameters are read from the places where they are written: mode, speed,
/// brightness, option, red, green, blue behind the echo.
pub proof fn side_led_parameters_are_read(
    kb: &KeyboardInterface,
    none: &[Reply],
    told: &[Reply],
    asks: Step<LedParams>,
    reads: Step<LedParams>,
)
    requires
        none@.len() == 0,
        told@.len() == 1,
        told@[0] is Ok,
        call_ensures(KeyboardInterface::get_side_led_params, (kb, none), asks),
        call_ensures(KeyboardInterface::get_side_led_params, (kb, told), reads),
    ensures
        ({
            let d = told@[0]->Ok_0@;
            &&& asks@ matches StepView::Ask(RequestView::Raw(f)) && f.cmd
                == kb.commands.get_sledparam
            &&& d.len() >= 8 && d[0] == kb.commands.get_sledparam ==> {
                &&& reads matches Step::Done(Ok(p))
                &&& d[1] <= 22 ==> p.mode.number() == d[1]
                &&& d[1] > 22 ==> p.mode.number() == 0
                &&& p.speed == d[2]
                &&& p.brightness == d[3]
                &&& p.direction == d[4]
                &&& p.color.r == d[5] && p.color.g == d[6] && p.color.b == d[7]
            }
            &&& d.len() < 8 || d[0] != kb.commands.get_sledparam ==> unexpected_answer(reads)
        }),
{
    assert(seen(told@)[0] == reply_view(told@[0]));
}

/// Changing the mode keeps every other LED parameter.
pub proof fn changing_the_mode_keeps_the_rest(
    kb: &KeyboardInterface,
    mode: LedMode,
    before: LedParams,
    none: &[Reply],
    asks: Step<()>,
    writes: Step<()>,
)
    requires
        none@.len() == 0,
        call_ensures(KeyboardInterface::set_led_mode, (kb, mode, None, none), asks),
        call_ensures(KeyboardInterface::set_led_mode, (kb, mode, Some(Ok(before)), none), writes),
    ensures
        asks@ == StepView::<()>::Ask(RequestView::LedQuery),
        writes@ matches StepView::Ask(RequestView::Led(p)) && p.mode == mode && p.brightness
            == before.brightness && p.speed == before.speed && p.color == before.color
            && p.direction == before.direction,
{
}

/// The color of a position: the one in the list, or black behind its end.
pub open spec fn wanted_color(colors: Seq<(u8, u8, u8)>, i: int) -> (u8, u8, u8) {
    if i < colors.len() {
        colors[i]
    } else {
        (0, 0, 0)
    }
}

/// Whether requests carry the colors of all positions, 18 to a request in order, to an LED
/// bank, from the request `from` on.
pub open spec fn carries_colors(
    sent: Seq<RequestView>,
    from: int,
    cmd: u8,
    led_layer: u8,
    colors: Seq<(u8, u8, u8)>,
    i: int,
) -> bool {
    let c = wanted_color(colors, i);
    let at = 2 + 3 * (i % 18);
    &&& from + i / 18 < sent.len()
    &&& sent[from + i / 18] matches RequestView::Raw(f)
    &&& f.cmd == cmd
    &&& f.data.len() == 56
    &&& f.data[0] == led_layer
    &&& f.data[1] == i / 18
    &&& f.data[at] == c.0 && f.data[at + 1] == c.1 && f.data[at + 2] == c.2
}

/// Where the color of a position stands.
proof fn lemma_color_place(cmd: u8, led_layer: u8, colors: Seq<(u8, u8, u8)>, size: nat, i: int)
    requires
        0 <= i < size,
        size <= 4608,
    ensures
        carries_colors(
            color_chunks(cmd, led_layer, full_colors(colors, size)),
            0,
            cmd,
            led_layer,
            colors,
            i,
        ),
        18 * (color_chunks(cmd, led_layer, full_colors(colors, size)).len() - 1) < size,
{
    let full = full_colors(colors, size);
    let p = i / 18;
    let k = 3 * (i % 18);
    let all = color_chunks(cmd, led_layer, full);
    assert(all[p] == color_chunk(cmd, led_layer, full, p));
    let body = all[p]->Raw_0.data;
    assert(p * 18 + k / 3 == i && p * 18 + (k + 1) / 3 == i && p * 18 + (k + 2) / 3 == i);
    assert(k % 3 == 0 && (k + 1) % 3 == 1 && (k + 2) % 3 == 2);
    assert(body[2 + k] == crate::lights::component(full[i], 0));
    assert(body[2 + (k + 1)] == crate::lights::component(full[i], 1));
    assert(body[2 + (k + 2)] == crate::lights::component(full[i], 2));
}

/// Every position's color goes out, in order: the request `i / 18` names that chunk, and
/// carries red, green and blue of the position `i` in its place; black where the list ends.
pub proof fn every_color_goes_out(
    kb: &KeyboardInterface,
    colors: &[(u8, u8, u8)],
    led_layer: u8,
    given: Seq<&[Reply]>,
    steps: Seq<Step<()>>,
    replies: Seq<Reply>,
    i: int,
)
    requires
        given.len() == steps.len(),
        goes_through(steps, replies),
        forall|m: int|
            0 <= m < steps.len() ==> (#[trigger] given[m])@ == replies.take(m) && call_ensures(
                KeyboardInterface::set_per_key_colors_to_layer,
                (kb, colors, led_layer, given[m]),
                steps[m],
            ),
        0 <= i < kb.matrix_len() <= 4608,
    ensures
        steps.last() == Step::<()>::Done(Ok(())),
        carries_colors(asked_for(steps), 0, kb.commands.set_userpic, led_layer, colors@, i),
        18 * (asked_for(steps).len() - 1) < kb.matrix_len(),
{
    let list = color_chunks(
        kb.commands.set_userpic,
        led_layer,
        full_colors(colors@, kb.matrix_len()),
    );
    assert forall|m: int| 0 <= m < steps.len() implies (#[trigger] steps[m])@ == sent(
        seen(replies.take(m)),
        list,
    ) by {
        assert(given[m]@ == replies.take(m));
    }
    lemma_sent_run(list, steps, replies);
    lemma_color_place(kb.commands.set_userpic, led_layer, colors@, kb.matrix_len(), i);
}

/// The matrix has as many positions as it has names, or as many as the board has keys when
/// there are none.
pub proof fn the_matrix_is_as_long_as_its_names(kb: &KeyboardInterface, n: usize)
    requires
        call_ensures(KeyboardInterface::matrix_size, (kb,), n),
    ensures
        kb.matrix_key_names@.len() > 0 ==> n == kb.matrix_key_names@.len(),
        kb.matrix_key_names@.len() == 0 ==> n == kb.key_count,
        n == kb.matrix_len(),
{
}

/// One color for all keys is that color for each position.
pub proof fn one_color_for_all(
    kb: &KeyboardInterface,
    color: RgbColor,
    led_layer: u8,
    colors: &[(u8, u8, u8)],
    given: &[Reply],
    all: Step<()>,
    each: Step<()>,
)
    requires
        colors@.len() == kb.matrix_len(),
        forall|i: int|
            0 <= i < colors@.len() ==> #[trigger] colors@[i] == (color.r, color.g, color.b),
        call_ensures(KeyboardInterface::set_all_keys_color, (kb, color, led_layer, given), all),
        call_ensures(
            KeyboardInterface::set_per_key_colors_to_layer,
            (kb, colors, led_layer, given),
            each,
        ),
    ensures
        all@ == each@,
{
    assert(full_colors(colors@, kb.matrix_len()) =~= Seq::new(
        kb.matrix_len(),
        |i: int| (color.r, color.g, color.b),
    ));
}

/// The requests of a list that is sent over and over.
proof fn lemma_repeated(list: Seq<RequestView>, times: nat, k: int, j: int)
    requires
        0 <= k < times,
        0 <= j < list.len(),
    ensures
        repeated_list(list, times).len() == times * list.len(),
        k * list.len() + j < repeated_list(list, times).len(),
        repeated_list(list, times)[k * list.len() + j] == list[j],
    decreases times,
{
    let n = list.len();
    let before = (times - 1) as nat;
    if before > 0 {
        lemma_repeated(list, before, if k < before { k } else { 0 }, j);
    } else {
        assert(repeated_list(list, 0).len() == 0);
    }
    assert(times * n == before * n + n) by (nonlinear_arith)
        requires
            before == times - 1,
    ;
    if k < before {
        assert(k * n + j < before * n) by (nonlinear_arith)
            requires
                k + 1 <= before,
                j < n,
        ;
    } else {
        assert(k * n == before * n);
    }
}

/// Colors that are streamed go out as often as asked for, and at least once, each time all
/// of them.
pub proof fn streamed_colors_go_out_each_time(
    kb: &KeyboardInterface,
    colors: &[(u8, u8, u8)],
    repeat: u8,
    led_layer: u8,
    given: Seq<&[Reply]>,
    steps: Seq<Step<()>>,
    replies: Seq<Reply>,
    i: int,
    k: int,
)
    requires
        given.len() == steps.len(),
        goes_through(steps, replies),
        forall|m: int|
            0 <= m < steps.len() ==> (#[trigger] given[m])@ == replies.take(m) && call_ensures(
                KeyboardInterface::set_per_key_colors_fast,
                (kb, colors, repeat, led_layer, given[m]),
                steps[m],
            ),
        0 <= i < kb.matrix_len() <= 4608,
        0 <= k < repeat || k == 0,
    ensures
        steps.last() == Step::<()>::Done(Ok(())),
        ({
            let chunks = (kb.matrix_len() + 17) / 18;
            &&& asked_for(steps).len() == chunks * (if repeat == 0 {
                1
            } else {
                repeat as int
            })
            &&& carries_colors(
                asked_for(steps),
                k * chunks,
                kb.commands.set_userpic,
                led_layer,
                colors@,
                i,
            )
        }),
{
    let once = color_chunks(
        kb.commands.set_userpic,
        led_layer,
        full_colors(colors@, kb.matrix_len()),
    );
    let list = repeated_list(once, sends(repeat));
    assert forall|m: int| 0 <= m < steps.len() implies (#[trigger] steps[m])@ == sent(
        seen(replies.take(m)),
        list,
    ) by {
        assert(given[m]@ == replies.take(m));
    }
    lemma_sent_run(list, steps, replies);
    lemma_color_place(kb.commands.set_userpic, led_layer, colors@, kb.matrix_len(), i);
    assert(once.len() == (kb.matrix_len() + 17) / 18);
    lemma_repeated(once, sends(repeat), k, i / 18);
    assert(sends(repeat) * once.len() == once.len() * sends(repeat)) by (nonlinear_arith);
}

/// Every single LED of a sparse update goes out, in order, 13 to a request: its grid
/// position and its color.
pub proof fn every_single_led_goes_out(
    kb: &KeyboardInterface,
    entries: &[(u8, u8, u8, u8)],
    given: Seq<&[Reply]>,
    steps: Seq<Step<()>>,
    replies: Seq<Reply>,
    i: int,
)
    requires
        given.len() == steps.len(),
        goes_through(steps, replies),
        forall|m: int|
            0 <= m < steps.len() ==> (#[trigger] given[m])@ == replies.take(m) && call_ensures(
                KeyboardInterface::stream_led_sparse,
                (kb, entries, given[m]),
                steps[m],
            ),
        0 <= i < entries@.len(),
    ensures
        steps.last() == Step::<()>::Done(Ok(())),
        ({
            let sent = asked_for(steps);
            let e = entries@[i];
            let at = 2 + 4 * (i % 13);
            &&& i / 13 < sent.len()
            &&& 13 * (sent.len() - 1) < entries@.len()
            &&& sent[i / 13] matches RequestView::Raw(f)
            &&& f.cmd == kb.commands.led_stream
            &&& f.data[0] == 0xFD
            &&& f.data.len() == 2 + 4 * f.data[1]
            &&& i % 13 < f.data[1] <= 13
            &&& f.data[at] == e.0 && f.data[at + 1] == e.1 && f.data[at + 2] == e.2 && f.data[at + 3]
                == e.3
        }),
{
    let list = sparse_chunks(kb.commands.led_stream, entries@);
    assert forall|m: int| 0 <= m < steps.len() implies (#[trigger] steps[m])@ == sent(
        seen(replies.take(m)),
        list,
    ) by {
        assert(given[m]@ == replies.take(m));
    }
    lemma_sent_run(list, steps, replies);
    let p = i / 13;
    assert(list[p] == sparse_chunk(kb.commands.led_stream, entries@, p));
    let d = list[p]->Raw_0.data;
    let k = 4 * (i % 13);
    assert(p * 13 + k / 4 == i && p * 13 + (k + 1) / 4 == i && p * 13 + (k + 2) / 4 == i && p * 13 + (
    k + 3) / 4 == i);
    assert(d[2 + k] == entries@[i].0);
    assert(d[2 + (k + 1)] == entries@[i].1);
    assert(d[2 + (k + 2)] == entries@[i].2);
    assert(d[2 + (k + 3)] == entries@[i].3);
}

/// Every byte of a picture goes out to its slot, 56 to a page in order, with the last page
/// marked; behind the picture the slot is black. Only slots 0 to 4 are there.
pub proof fn every_picture_byte_goes_out(
    kb: &KeyboardInterface,
    slot: u8,
    data: &[u8],
    given: Seq<&[Reply]>,
    steps: Seq<Step<()>>,
    replies: Seq<Reply>,
    i: int,
)
    requires
        given.len() == steps.len(),
        goes_through(steps, replies),
        forall|m: int|
            0 <= m < steps.len() ==> (#[trigger] given[m])@ == replies.take(m) && call_ensures(
                KeyboardInterface::upload_userpic,
                (kb, slot, data, given[m]),
                steps[m],
            ),
        0 <= i < 378,
    ensures
        slot > 4 ==> steps.len() == 1 && bad_parameter(steps.last()),
        slot <= 4 ==> {
            let sent = asked_for(steps);
            &&& steps.last() == Step::<()>::Done(Ok(()))
            &&& sent.len() == 7
            &&& sent[i / 56] matches RequestView::Raw(f)
            &&& f.cmd == kb.commands.set_userpic
            &&& f.data[0] == slot
            &&& f.data[2] == i / 56
            &&& f.data[3] == f.data.len() - 7
            &&& f.data[4] == (if i / 56 == 6 { 1int } else { 0 })
            &&& f.data[7 + i % 56] == (if i < data@.len() {
                data@[i]
            } else {
                0
            })
        },
{
    let list = userpic_pages(kb.commands.set_userpic, slot, data@);
    if slot <= 4 {
        assert forall|m: int| 0 <= m < steps.len() implies (#[trigger] steps[m])@ == sent(
            seen(replies.take(m)),
            list,
        ) by {
            assert(given[m]@ == replies.take(m));
        }
        lemma_sent_run(list, steps, replies);
        let page = i / 56;
        let d = list[page]->Raw_0.data;
        assert(page * 56 + i % 56 == i);
        let stored = crate::lights::userpic_slot_data(data@);
        assert(d[7 + i % 56] == stored[i]);
    } else {
        assert(given[0]@ == replies.take(0));
        assert(steps[0]@ is Done);
        if replies.len() > 0 {
            assert(steps[0] is Ask);
        }
    }
}

/// Reading a picture asks its slot for six pages in order, and gives back the 384 bytes
/// that they hold.
#[verifier::spinoff_prover]
pub proof fn pictures_are_read_from_their_slot(
    kb: &KeyboardInterface,
    slot: u8,
    memory: Seq<u8>,
    given: &[Reply],
    step: Step<Vec<u8>>,
)
    requires
        slot <= 4,
        memory.len() == 384,
        given@.len() <= 6,
        forall|p: int|
            0 <= p < given@.len() ==> ((#[trigger] given@[p]) matches Ok(d) && d@ == page_of(
                memory,
                p as u8,
            )),
        call_ensures(KeyboardInterface::download_userpic, (kb, slot, given), step),
    ensures
        given@.len() < 6 ==> {
            &&& step@ matches StepView::Ask(RequestView::Raw(f))
            &&& f.cmd == kb.commands.get_userpic
            &&& f.data == seq![slot, 0xFFu8, given@.len() as u8]
        },
        given@.len() == 6 ==> (step matches Step::Done(Ok(data)) && data@ == memory),
{
    let list = userpic_blocks(kb.commands.get_userpic, slot);
    let all = seen(given@);
    assert forall|p: int| 0 <= p < all.len() implies #[trigger] all[p] == Ok::<
        Seq<u8>,
        crate::error::ErrorView,
    >(memory.subrange(64 * p, 64 * p + 64)) by {
        assert(given@[p] is Ok);
        assert(all[p] == reply_view(given@[p]));
    }
    crate::laws::board::lemma_block_asks(list, all, 0);
    if given@.len() == 6 {
        assert(crate::exchange::tells_pages(all, 0, 6, memory, 64));
        crate::exchange::pages_make_up_the_store(list, all, 0, memory, 64);
        assert(memory.take(384) =~= memory);
    }
}

} // verus!
