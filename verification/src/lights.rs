//! LED parameters, stored pictures and streamed colors.

use crate::bits::upper_nibble;
use crate::error::{invalid, unexpected, KeyboardError};
use crate::exchange::{
    block, decoded, first, pages_make_up_the_store, read_block, seen, send_all, send_one, sent,
    tells_pages, whole, Answer, Part, PartView, Reply, ReplyView, Step, StepView,
};
use crate::keyboard::{query, query_request, KeyboardInterface};
use crate::led::{
    at_most, cap, speed_to_wire, wire_speed, LedMode, LedParams, RgbColor, BRIGHTNESS_MAX, DAZZLE_ON,
    LED_MODE_MAX, SPEED_MAX, USER_PICTURE_MODE,
};
use crate::macros::{page_count, zero_padded};
use crate::protocol::{
    raw, requests, ChecksumType, Delivery, Request, RequestView, INPUT_REPORT_SIZE,
};
use crate::settings::flag;
use crate::triggers::{count_pages, up_to};
use vstd::prelude::*;

verus! {

/// Bytes of a picture slot.
pub const USERPIC_SIZE: usize = 384;

/// Bytes of one page of a picture on its way out.
pub const USERPIC_PAGE_SIZE: usize = 56;

/// Bytes of the last page of a picture.
pub const USERPIC_LAST_PAGE_SIZE: usize = 42;

/// Pages of a picture on its way out.
pub const USERPIC_PAGES: usize = 7;

/// Blocks of a picture on its way in.
pub const USERPIC_BLOCKS: usize = 6;

/// Highest picture slot.
pub const USERPIC_SLOT_MAX: u8 = 4;

/// Pause in milliseconds between the pages of a picture.
pub const USERPIC_REST_MS: u64 = 10;

/// Keys whose colors one request carries.
pub const COLORS_PER_CHUNK: usize = 18;

/// LEDs that one sparse update carries.
pub const SPARSE_PER_CHUNK: usize = 13;

/// Color of the picture mode, where the firmware takes the colors from the picture.
pub const PICTURE_RGB: (u8, u8, u8) = (0, 200, 200);

/// The mode with a number, dark if there is none.
pub open spec fn mode_or_off(mode: LedMode, code: u8) -> bool {
    mode.number() == (if code <= crate::led::LED_MODE_MAX {
        code
    } else {
        0
    })
}

/// Whether side LED parameters are what an answer holds:
/// `[cmd, mode, speed, brightness, option, r, g, b]`.
pub open spec fn side_params_match(p: LedParams, d: Seq<u8>) -> bool {
    &&& mode_or_off(p.mode, d[1])
    &&& p.speed == d[2]
    &&& p.brightness == d[3]
    &&& p.direction == d[4]
    &&& p.color == (RgbColor { r: d[5], g: d[6], b: d[7] })
}

/// The payload that sets LED parameters: `[mode, speed, brightness, option, r, g, b]`.
pub open spec fn led_payload(mode: u8, speed: u8, brightness: u8, option: u8, c: RgbColor) -> Seq<
    u8,
> {
    seq![mode, speed, at_most(brightness, BRIGHTNESS_MAX), option, c.r, c.g, c.b]
}

/// Side LED parameters within range that are written are read back.
pub proof fn side_lights_round_trip(cmd: u8, p: LedParams, q: LedParams)
    requires
        p.mode.number() <= LED_MODE_MAX,
        p.speed <= SPEED_MAX,
        p.brightness <= BRIGHTNESS_MAX,
        side_params_match(
            q,
            seq![cmd] + led_payload(
                p.mode.number(),
                at_most(p.speed, SPEED_MAX),
                p.brightness,
                p.direction,
                p.color,
            ),
        ),
    ensures
        q.mode.number() == p.mode.number(),
        q.speed == p.speed,
        q.brightness == p.brightness,
        q.direction == p.direction,
        q.color == p.color,
{
}

/// The option byte and color of an LED mode. The picture mode names its slot in the
/// upper half of the option byte and takes a fixed color; any other says whether colors
/// cycle.
pub open spec fn led_option(
    mode: u8,
    color: RgbColor,
    dazzle: bool,
    userpic_slot: u8,
    dazzle_off: u8,
) -> (u8, RgbColor) {
    if mode == USER_PICTURE_MODE {
        (
            ((userpic_slot % 16) * 16) as u8,
            RgbColor { r: PICTURE_RGB.0, g: PICTURE_RGB.1, b: PICTURE_RGB.2 },
        )
    } else if dazzle {
        (DAZZLE_ON, color)
    } else {
        (dazzle_off, color)
    }
}

/// A protected LED command that is only sent.
pub open spec fn led_command(cmd: u8, data: Seq<u8>) -> RequestView {
    raw(cmd, data, ChecksumType::Bit8, Delivery::Send)
}

/// How many bytes a picture page carries.
pub open spec fn userpic_page_size(page: int) -> int {
    if page == USERPIC_PAGES - 1 {
        USERPIC_LAST_PAGE_SIZE as int
    } else {
        USERPIC_PAGE_SIZE as int
    }
}

/// A picture as the slot holds it: cut off or filled with zeros to the slot's size.
pub open spec fn userpic_slot_data(data: Seq<u8>) -> Seq<u8> {
    zero_padded(up_to(data, USERPIC_SIZE as nat), USERPIC_SIZE as nat)
}

/// The requests that store a picture:
/// `[slot, 0xFF, page, size, last, 0, 0, colors...]`.
pub open spec fn userpic_pages(cmd: u8, slot: u8, data: Seq<u8>) -> Seq<RequestView> {
    Seq::new(
        USERPIC_PAGES as nat,
        |page: int|
            raw(
                cmd,
                seq![
                    slot,
                    0xFFu8,
                    page as u8,
                    userpic_page_size(page) as u8,
                    flag(page == USERPIC_PAGES - 1),
                    0u8,
                    0u8,
                ] + userpic_slot_data(data).subrange(
                    page * USERPIC_PAGE_SIZE,
                    page * USERPIC_PAGE_SIZE + userpic_page_size(page),
                ),
                ChecksumType::Bit7,
                Delivery::SendThenRest(USERPIC_REST_MS),
            ),
    )
}

/// The requests that read a picture.
pub open spec fn userpic_blocks(cmd: u8, slot: u8) -> Seq<RequestView> {
    Seq::new(
        USERPIC_BLOCKS as nat,
        |i: int|
            raw(
                cmd,
                seq![slot, 0xFFu8, i as u8],
                ChecksumType::Bit7,
                Delivery::QueryPage(INPUT_REPORT_SIZE),
            ),
    )
}

/// Every byte of a picture that fits the pages goes out, in order.
pub proof fn userpic_pages_cover(cmd: u8, slot: u8, data: Seq<u8>, i: int)
    requires
        0 <= i < data.len(),
        i < 378,
    ensures
        ({
            let p = i / USERPIC_PAGE_SIZE as int;
            let pages = userpic_pages(cmd, slot, data);
            &&& 0 <= p < pages.len()
            &&& pages[p] matches RequestView::Raw(f)
            &&& 7 + i % USERPIC_PAGE_SIZE as int == 7 + i - p * 56
            &&& f.data[7 + i % USERPIC_PAGE_SIZE as int] == data[i]
        }),
{
}

/// A slot once a picture is stored: the pages lie one behind the other, and what they do
/// not reach stays.
pub open spec fn slot_after(before: Seq<u8>, data: Seq<u8>) -> Seq<u8> {
    userpic_slot_data(data).take(378) + before.skip(378)
}

/// Every page that stores a picture carries its part of the slot.
pub proof fn userpic_pages_fill_the_slot(cmd: u8, slot: u8, data: Seq<u8>, before: Seq<u8>, page: int)
    requires
        0 <= page < USERPIC_PAGES,
        before.len() == USERPIC_SIZE,
    ensures
        userpic_pages(cmd, slot, data)[page] matches RequestView::Raw(f) && f.data[0] == slot
            && f.data[2] == page && f.data.skip(7) == slot_after(before, data).subrange(
            page * USERPIC_PAGE_SIZE,
            page * USERPIC_PAGE_SIZE + userpic_page_size(page),
        ),
{
    let f = userpic_pages(cmd, slot, data)[page]->Raw_0;
    let stored = userpic_slot_data(data);
    assert(stored.len() == USERPIC_SIZE);
    assert(f.data.skip(7) =~= stored.subrange(
        page * USERPIC_PAGE_SIZE,
        page * USERPIC_PAGE_SIZE + userpic_page_size(page),
    ));
    assert(f.data.skip(7) =~= slot_after(before, data).subrange(
        page * USERPIC_PAGE_SIZE,
        page * USERPIC_PAGE_SIZE + userpic_page_size(page),
    ));
}

/// A picture that was stored is read back, as far as the pages reach. A picture has 288
/// bytes.
pub proof fn stored_picture_is_read_back(
    data: Seq<u8>,
    before: Seq<u8>,
    cmd: u8,
    slot: u8,
    replies: Seq<ReplyView>,
)
    requires
        data.len() <= 378,
        before.len() == USERPIC_SIZE,
        tells_pages(
            replies,
            0,
            USERPIC_BLOCKS as nat,
            slot_after(before, data),
            INPUT_REPORT_SIZE as int,
        ),
    ensures
        decoded(
            block(userpic_blocks(cmd, slot), replies, 0),
            |d: Seq<u8>| Ok(up_to(d, USERPIC_SIZE as nat)),
        ) == (PartView::Found {
            value: slot_after(before, data),
            next: USERPIC_BLOCKS as nat,
        }),
        slot_after(before, data).take(data.len() as int) == data,
{
    let store = slot_after(before, data);
    assert(userpic_slot_data(data).len() == USERPIC_SIZE);
    assert(store.len() == USERPIC_SIZE);
    pages_make_up_the_store(
        userpic_blocks(cmd, slot),
        replies,
        0,
        store,
        INPUT_REPORT_SIZE as int,
    );
    assert(store.take(384) =~= store);
    assert(store.take(data.len() as int) =~= data);
}

/// One component of a color.
pub open spec fn component(c: (u8, u8, u8), k: int) -> u8 {
    if k == 0 {
        c.0
    } else if k == 1 {
        c.1
    } else {
        c.2
    }
}

/// The colors of a whole matrix: cut off, or filled with black.
pub open spec fn full_colors(colors: Seq<(u8, u8, u8)>, size: nat) -> Seq<(u8, u8, u8)> {
    Seq::new(
        size,
        |i: int|
            if i < colors.len() {
                colors[i]
            } else {
                (0u8, 0u8, 0u8)
            },
    )
}

/// The request that carries one chunk of colors: bank, chunk, and 54 bytes.
pub open spec fn color_chunk(cmd: u8, led_layer: u8, full: Seq<(u8, u8, u8)>, chunk: int) -> RequestView {
    raw(
        cmd,
        seq![led_layer, (chunk % 256) as u8] + Seq::new(
            54,
            |k: int|
                if chunk * COLORS_PER_CHUNK + k / 3 < full.len() {
                    component(full[chunk * COLORS_PER_CHUNK + k / 3], k % 3)
                } else {
                    0u8
                },
        ),
        ChecksumType::Bit8,
        Delivery::SendThenWait(5),
    )
}

/// The requests that carry all colors once.
pub open spec fn color_chunks(cmd: u8, led_layer: u8, full: Seq<(u8, u8, u8)>) -> Seq<RequestView> {
    Seq::new(
        page_count(full.len(), COLORS_PER_CHUNK as nat),
        |i: int| color_chunk(cmd, led_layer, full, i),
    )
}

/// A list over and over.
pub open spec fn repeated_list(list: Seq<RequestView>, times: nat) -> Seq<RequestView>
    decreases times,
{
    if times == 0 {
        Seq::empty()
    } else {
        repeated_list(list, (times - 1) as nat) + list
    }
}

/// How often colors are sent: at least once.
pub open spec fn sends(repeat: u8) -> nat {
    if repeat == 0 {
        1
    } else {
        repeat as nat
    }
}

/// The request that carries one chunk of a sparse update: `[0xFD, count, entries...]`,
/// four bytes to an entry.
pub open spec fn sparse_chunk(cmd: u8, entries: Seq<(u8, u8, u8, u8)>, chunk: int) -> RequestView {
    let start = chunk * SPARSE_PER_CHUNK;
    let count = if entries.len() - start < SPARSE_PER_CHUNK {
        entries.len() - start
    } else {
        SPARSE_PER_CHUNK as int
    };
    raw(
        cmd,
        seq![0xFDu8, count as u8] + Seq::new(
            (4 * count) as nat,
            |k: int|
                {
                    let e = entries[start + k / 4];
                    if k % 4 == 0 {
                        e.0
                    } else if k % 4 == 1 {
                        e.1
                    } else if k % 4 == 2 {
                        e.2
                    } else {
                        e.3
                    }
                },
        ),
        ChecksumType::Unprotected,
        Delivery::SendThenWait(0),
    )
}

/// The requests of a sparse update.
pub open spec fn sparse_chunks(cmd: u8, entries: Seq<(u8, u8, u8, u8)>) -> Seq<RequestView> {
    Seq::new(
        page_count(entries.len(), SPARSE_PER_CHUNK as nat),
        |i: int| sparse_chunk(cmd, entries, i),
    )
}

/// An unprotected streaming request without a pause.
pub open spec fn stream(cmd: u8, data: Seq<u8>) -> RequestView {
    raw(cmd, data, ChecksumType::Unprotected, Delivery::SendThenWait(0))
}

/// The request that carries one chunk of colors.
fn color_request(cmd: u8, led_layer: u8, full: &Vec<(u8, u8, u8)>, chunk: usize) -> (r: Request)
    requires
        chunk * 18 < full@.len(),
    ensures
        r@ == color_chunk(cmd, led_layer, full@, chunk as int),
{
    let n: usize = full.len();
    let start: usize = chunk * COLORS_PER_CHUNK;
    let mut data: Vec<u8> = vec![led_layer, (chunk % 256) as u8];
    let ghost rgb = Seq::new(
        54,
        |k: int|
            if chunk * COLORS_PER_CHUNK + k / 3 < full@.len() {
                component(full@[chunk * COLORS_PER_CHUNK + k / 3], k % 3)
            } else {
                0u8
            },
    );
    let mut i: usize = 0;
    assert(data@ =~= seq![led_layer, (chunk % 256) as u8] + rgb.take(0));
    while i < COLORS_PER_CHUNK
        invariant
            n == full@.len(),
            start == chunk * 18,
            start < n,
            i <= COLORS_PER_CHUNK,
            rgb == Seq::new(
                54,
                |k: int|
                    if chunk * COLORS_PER_CHUNK + k / 3 < full@.len() {
                        component(full@[chunk * COLORS_PER_CHUNK + k / 3], k % 3)
                    } else {
                        0u8
                    },
            ),
            data@ == seq![led_layer, (chunk % 256) as u8] + rgb.take(3 * i as int),
        decreases COLORS_PER_CHUNK - i,
    {
        let c: (u8, u8, u8) = if i < n - start {
            full[start + i]
        } else {
            (0, 0, 0)
        };
        let ghost before = data@;
        data.push(c.0);
        data.push(c.1);
        data.push(c.2);
        assert(rgb[3 * i as int] == c.0);
        assert(rgb[3 * i + 1] == c.1);
        assert(rgb[3 * i + 2] == c.2);
        assert(rgb.take(3 * (i + 1)) =~= rgb.take(3 * i as int) + seq![c.0, c.1, c.2]);
        assert(data@ =~= before + seq![c.0, c.1, c.2]);
        assert(data@ =~= seq![led_layer, (chunk % 256) as u8] + rgb.take(3 * (i + 1)));
        i += 1;
    }
    assert(rgb.take(54) =~= rgb);
    Request::frame(cmd, data, ChecksumType::Bit8, Delivery::SendThenWait(5))
}

/// The requests that carry all colors once.
fn color_requests(cmd: u8, led_layer: u8, full: &Vec<(u8, u8, u8)>) -> (r: Vec<Request>)
    ensures
        requests(r@) == color_chunks(cmd, led_layer, full@),
{
    let chunks: usize = count_pages(full.len(), COLORS_PER_CHUNK);
    let ghost all = color_chunks(cmd, led_layer, full@);
    let mut out: Vec<Request> = Vec::new();
    let mut i: usize = 0;
    while i < chunks
        invariant
            all == color_chunks(cmd, led_layer, full@),
            chunks == page_count(full@.len(), 18),
            i <= chunks,
            requests(out@) == all.take(i as int),
        decreases chunks - i,
    {
        let ghost before = out@;
        out.push(color_request(cmd, led_layer, full, i));
        assert(requests(out@) =~= requests(before).push(out@.last()@));
        assert(all.take(i + 1) =~= all.take(i as int).push(all[i as int]));
        i += 1;
    }
    assert(all.take(i as int) =~= all);
    out
}

/// The request that carries one chunk of a sparse update.
fn sparse_request(cmd: u8, entries: &[(u8, u8, u8, u8)], chunk: usize) -> (r: Request)
    requires
        chunk * 13 < entries@.len(),
    ensures
        r@ == sparse_chunk(cmd, entries@, chunk as int),
{
    let n: usize = entries.len();
    let start: usize = chunk * SPARSE_PER_CHUNK;
    let count: usize = if n - start < SPARSE_PER_CHUNK {
        n - start
    } else {
        SPARSE_PER_CHUNK
    };
    let mut data: Vec<u8> = vec![0xFD, count as u8];
    let ghost body = Seq::new(
        (4 * count) as nat,
        |k: int|
            {
                let e = entries@[start + k / 4];
                if k % 4 == 0 {
                    e.0
                } else if k % 4 == 1 {
                    e.1
                } else if k % 4 == 2 {
                    e.2
                } else {
                    e.3
                }
            },
    );
    let mut i: usize = 0;
    assert(data@ =~= seq![0xFDu8, count as u8] + body.take(0));
    while i < count
        invariant
            n == entries@.len(),
            start + count <= n,
            i <= count,
            body == Seq::new(
                (4 * count) as nat,
                |k: int|
                    {
                        let e = entries@[start + k / 4];
                        if k % 4 == 0 {
                            e.0
                        } else if k % 4 == 1 {
                            e.1
                        } else if k % 4 == 2 {
                            e.2
                        } else {
                            e.3
                        }
                    },
            ),
            data@ == seq![0xFDu8, count as u8] + body.take(4 * i as int),
        decreases count - i,
    {
        let e: (u8, u8, u8, u8) = entries[start + i];
        let ghost before = data@;
        data.push(e.0);
        data.push(e.1);
        data.push(e.2);
        data.push(e.3);
        assert(body[4 * i as int] == e.0);
        assert(body[4 * i + 1] == e.1);
        assert(body[4 * i + 2] == e.2);
        assert(body[4 * i + 3] == e.3);
        assert(body.take(4 * (i + 1)) =~= body.take(4 * i as int) + seq![e.0, e.1, e.2, e.3]);
        assert(data@ =~= before + seq![e.0, e.1, e.2, e.3]);
        assert(data@ =~= seq![0xFDu8, count as u8] + body.take(4 * (i + 1)));
        i += 1;
    }
    assert(body.take(4 * count as int) =~= body);
    Request::frame(cmd, data, ChecksumType::Unprotected, Delivery::SendThenWait(0))
}

/// `data` cut off or filled with zeros to `len` bytes, behind a first byte.
fn framed_bytes(first_byte: u8, data: &[u8], len: usize) -> (r: Vec<u8>)
    requires
        len < usize::MAX,
    ensures
        r@ == seq![first_byte] + zero_padded(up_to(data@, len as nat), len as nat),
{
    let ghost body = zero_padded(up_to(data@, len as nat), len as nat);
    let mut out: Vec<u8> = vec![first_byte];
    let mut i: usize = 0;
    assert(out@ =~= seq![first_byte] + body.take(0));
    while i < len
        invariant
            i <= len,
            body == zero_padded(up_to(data@, len as nat), len as nat),
            out@ == seq![first_byte] + body.take(i as int),
        decreases len - i,
    {
        let b: u8 = if i < data.len() {
            data[i]
        } else {
            0
        };
        out.push(b);
        assert(body[i as int] == b);
        assert(body.take(i + 1) =~= body.take(i as int).push(b));
        assert(out@ =~= seq![first_byte] + body.take(i + 1));
        i += 1;
    }
    assert(body.take(len as int) =~= body);
    out
}

impl KeyboardInterface {
    /// Get the main LED parameters, as the transport decodes them.
    pub fn get_led_params(&self, reply: Option<Result<LedParams, KeyboardError>>) -> (r: Step<
        LedParams,
    >)
        ensures
            r@ == (match reply {
                None => StepView::Ask(RequestView::LedQuery),
                Some(Err(e)) => StepView::Done(Err(e@)),
                Some(Ok(p)) => StepView::Done(Ok(p)),
            }),
    {
        match reply {
            None => Step::Ask(Request::LedQuery),
            Some(Err(e)) => Step::Done(Err(e)),
            Some(Ok(p)) => Step::Done(Ok(p)),
        }
    }

    /// Set the main LED mode, keeping the other parameters: read them, and write them
    /// back with the mode.
    pub fn set_led_mode(
        &self,
        mode: LedMode,
        read: Option<Result<LedParams, KeyboardError>>,
        replies: &[Reply],
    ) -> (r: Step<()>)
        ensures
            r@ == (match read {
                None => StepView::Ask(RequestView::LedQuery),
                Some(Err(e)) => StepView::Done(Err(e@)),
                Some(Ok(p)) => sent(
                    seen(replies@),
                    seq![RequestView::Led(LedParams { mode, ..p })],
                ),
            }),
    {
        match self.get_led_params(read) {
            Step::Ask(request) => Step::Ask(request),
            Step::Done(Err(e)) => Step::Done(Err(e)),
            Step::Done(Ok(p)) => {
                let params: LedParams = LedParams { mode, ..p };
                self.set_led_params(&params, replies)
            },
        }
    }

    /// Set the main LED parameters.
    pub fn set_led_params(&self, params: &LedParams, replies: &[Reply]) -> (r: Step<()>)
        ensures
            r@ == sent(seen(replies@), seq![RequestView::Led(*params)]),
    {
        send_one(Request::Led(*params), replies)
    }

    /// Get the side LED parameters. Their speed is not inverted on the wire.
    pub fn get_side_led_params(&self, replies: &[Reply]) -> (r: Step<LedParams>)
        ensures
            seen(replies@).len() == 0 ==> r@ == StepView::<LedParams>::Ask(
                query(self.commands.get_sledparam),
            ),
            seen(replies@).len() > 0 ==> match seen(replies@)[0] {
                Err(e) => r@ == StepView::<LedParams>::Done(Err(e)),
                Ok(d) => if d.len() < 8 || d[0] != self.commands.get_sledparam {
                    r@ == StepView::<LedParams>::Done(
                        Err(unexpected("Invalid side LED params response"@)),
                    )
                } else {
                    r matches Step::Done(Ok(p)) && side_params_match(p, d)
                },
            },
    {
        let cmd: u8 = self.commands.get_sledparam;
        match first(replies) {
            Answer::Open => Step::Ask(query_request(cmd)),
            Answer::Failed(e) => Step::Done(Err(e)),
            Answer::Data(d) => {
                if d.len() < 8 || d[0] != cmd {
                    return Step::Done(
                        Err(KeyboardError::unexpected_response("Invalid side LED params response")),
                    );
                }
                let mode: LedMode = match LedMode::from_u8(d[1]) {
                    Some(m) => m,
                    None => LedMode::off(),
                };
                Step::Done(
                    Ok(
                        LedParams {
                            mode,
                            speed: d[2],
                            brightness: d[3],
                            color: RgbColor::new(d[5], d[6], d[7]),
                            direction: d[4],
                        },
                    ),
                )
            },
        }
    }

    /// Set the side LED parameters. Their speed is not inverted on the wire.
    pub fn set_side_led_params(&self, params: &LedParams, replies: &[Reply]) -> (r: Step<()>)
        ensures
            r@ == sent(
                seen(replies@),
                seq![
                    led_command(
                        self.commands.set_sledparam,
                        led_payload(
                            params.mode.number(),
                            at_most(params.speed, SPEED_MAX),
                            params.brightness,
                            params.direction,
                            params.color,
                        ),
                    ),
                ],
            ),
    {
        let data: Vec<u8> = vec![
            params.mode.as_u8(),
            cap(params.speed, SPEED_MAX),
            cap(params.brightness, BRIGHTNESS_MAX),
            params.direction,
            params.color.r,
            params.color.g,
            params.color.b,
        ];
        assert(data@ =~= led_payload(
            params.mode.number(),
            at_most(params.speed, SPEED_MAX),
            params.brightness,
            params.direction,
            params.color,
        ));
        send_one(
            Request::frame(self.commands.set_sledparam, data, ChecksumType::Bit8, Delivery::Send),
            replies,
        )
    }

    /// Set the LED mode with all its parameters.
    pub fn set_led(
        &self,
        mode: u8,
        brightness: u8,
        speed: u8,
        color: RgbColor,
        dazzle: bool,
        replies: &[Reply],
    ) -> (r: Step<()>)
        ensures
            r@ == sent(
                seen(replies@),
                seq![
                    ({
                        let o = led_option(mode, color, dazzle, 0, self.commands.dazzle_off);
                        led_command(
                            self.commands.set_ledparam,
                            led_payload(mode, wire_speed(speed), brightness, o.0, o.1),
                        )
                    }),
                ],
            ),
    {
        self.set_led_with_option(mode, brightness, speed, color, dazzle, 0, replies)
    }

    /// Set the LED mode with all its parameters, and the slot of the picture mode.
    pub fn set_led_with_option(
        &self,
        mode: u8,
        brightness: u8,
        speed: u8,
        color: RgbColor,
        dazzle: bool,
        userpic_slot: u8,
        replies: &[Reply],
    ) -> (r: Step<()>)
        ensures
            r@ == sent(
                seen(replies@),
                seq![
                    ({
                        let o = led_option(
                            mode,
                            color,
                            dazzle,
                            userpic_slot,
                            self.commands.dazzle_off,
                        );
                        led_command(
                            self.commands.set_ledparam,
                            led_payload(mode, wire_speed(speed), brightness, o.0, o.1),
                        )
                    }),
                ],
            ),
    {
        let option: u8 = if mode == USER_PICTURE_MODE {
            upper_nibble(userpic_slot)
        } else if dazzle {
            DAZZLE_ON
        } else {
            self.commands.dazzle_off
        };
        let shown: RgbColor = if mode == USER_PICTURE_MODE {
            RgbColor::new(PICTURE_RGB.0, PICTURE_RGB.1, PICTURE_RGB.2)
        } else {
            color
        };
        let ghost o = led_option(mode, color, dazzle, userpic_slot, self.commands.dazzle_off);
        let data: Vec<u8> = vec![
            mode,
            speed_to_wire(speed),
            cap(brightness, BRIGHTNESS_MAX),
            option,
            shown.r,
            shown.g,
            shown.b,
        ];
        assert(data@ =~= led_payload(mode, wire_speed(speed), brightness, o.0, o.1));
        send_one(
            Request::frame(self.commands.set_ledparam, data, ChecksumType::Bit8, Delivery::Send),
            replies,
        )
    }

    /// Select a music visualizer mode. The upper half of the option byte is the style;
    /// the lower is 4 for a solid color, or turns the built-in rainbow on.
    pub fn set_music_viz_mode(
        &self,
        mode: u8,
        style: u8,
        brightness: u8,
        color: Option<RgbColor>,
        replies: &[Reply],
    ) -> (r: Step<()>)
        ensures
            r@ == sent(
                seen(replies@),
                seq![
                    led_command(
                        self.commands.set_ledparam,
                        led_payload(
                            mode,
                            0,
                            brightness,
                            ((style % 16) * 16) as u8 | (match color {
                                Some(_) => 4u8,
                                None => self.commands.dazzle_off,
                            }),
                            match color {
                                Some(c) => c,
                                None => RgbColor { r: 0, g: 0, b: 0 },
                            },
                        ),
                    ),
                ],
            ),
    {
        let low: u8 = match color {
            Some(_) => 4,
            None => self.commands.dazzle_off,
        };
        let shown: RgbColor = match color {
            Some(c) => c,
            None => RgbColor::new(0, 0, 0),
        };
        let option: u8 = upper_nibble(style) | low;
        let data: Vec<u8> = vec![
            mode,
            0,
            cap(brightness, BRIGHTNESS_MAX),
            option,
            shown.r,
            shown.g,
            shown.b,
        ];
        assert(data@ =~= led_payload(mode, 0, brightness, option, shown));
        send_one(
            Request::frame(self.commands.set_ledparam, data, ChecksumType::Bit8, Delivery::Send),
            replies,
        )
    }

    /// Store a picture in a slot (0-4).
    ///
    /// The pixel at column and row stands at `column * 18 + row * 3`; what the picture
    /// lacks to the slot's size is black.
    pub fn upload_userpic(&self, slot: u8, data: &[u8], replies: &[Reply]) -> (r: Step<()>)
        ensures
            r@ == (if slot > USERPIC_SLOT_MAX {
                StepView::Done(Err(invalid("Userpic slot must be 0-4"@)))
            } else {
                sent(seen(replies@), userpic_pages(self.commands.set_userpic, slot, data@))
            }),
    {
        if slot > USERPIC_SLOT_MAX {
            return Step::Done(Err(KeyboardError::invalid_parameter("Userpic slot must be 0-4")));
        }
        let cmd: u8 = self.commands.set_userpic;
        let padded: Vec<u8> = framed_bytes(0, data, USERPIC_SIZE);
        let ghost stored = userpic_slot_data(data@);
        let ghost all = userpic_pages(cmd, slot, data@);
        assert(padded@.skip(1) =~= stored);
        let mut list: Vec<Request> = Vec::new();
        let mut page: usize = 0;
        while page < USERPIC_PAGES
            invariant
                page <= USERPIC_PAGES,
                stored == userpic_slot_data(data@),
                stored.len() == USERPIC_SIZE,
                padded@ == seq![0u8] + stored,
                all == userpic_pages(cmd, slot, data@),
                requests(list@) == all.take(page as int),
            decreases USERPIC_PAGES - page,
        {
            let last: bool = page == USERPIC_PAGES - 1;
            let size: usize = if last {
                USERPIC_LAST_PAGE_SIZE
            } else {
                USERPIC_PAGE_SIZE
            };
            let start: usize = page * USERPIC_PAGE_SIZE;
            let chunk: Vec<u8> = crate::bits::sub_bytes(
                padded.as_slice(),
                start + 1,
                start + 1 + size,
            );
            assert(chunk@ =~= stored.subrange(start as int, start + size));
            let mut payload: Vec<u8> = vec![
                slot,
                0xFF,
                page as u8,
                size as u8,
                if last {
                    1
                } else {
                    0
                },
                0,
                0,
            ];
            payload.extend_from_slice(chunk.as_slice());
            assert(payload@ =~= seq![
                slot,
                0xFFu8,
                page as u8,
                size as u8,
                flag(last),
                0u8,
                0u8,
            ] + chunk@);
            let ghost before = list@;
            list.push(
                Request::frame(
                    cmd,
                    payload,
                    ChecksumType::Bit7,
                    Delivery::SendThenRest(USERPIC_REST_MS),
                ),
            );
            assert(requests(list@) =~= requests(before).push(list@.last()@));
            assert(all.take(page + 1) =~= all.take(page as int).push(all[page as int]));
            page += 1;
        }
        assert(all.take(page as int) =~= all);
        send_all(list, replies)
    }

    /// Read a picture from a slot (0-4): at most 384 bytes.
    pub fn download_userpic(&self, slot: u8, replies: &[Reply]) -> (r: Step<Vec<u8>>)
        ensures
            r@ == (if slot > USERPIC_SLOT_MAX {
                StepView::Done(Err(invalid("Userpic slot must be 0-4"@)))
            } else {
                whole(
                    decoded(
                        block(userpic_blocks(self.commands.get_userpic, slot), seen(replies@), 0),
                        |d: Seq<u8>| Ok(up_to(d, USERPIC_SIZE as nat)),
                    ),
                )
            }),
    {
        if slot > USERPIC_SLOT_MAX {
            return Step::Done(Err(KeyboardError::invalid_parameter("Userpic slot must be 0-4")));
        }
        let cmd: u8 = self.commands.get_userpic;
        let ghost all = userpic_blocks(cmd, slot);
        let mut list: Vec<Request> = Vec::new();
        let mut i: usize = 0;
        while i < USERPIC_BLOCKS
            invariant
                i <= USERPIC_BLOCKS,
                all == userpic_blocks(cmd, slot),
                requests(list@) == all.take(i as int),
            decreases USERPIC_BLOCKS - i,
        {
            let data: Vec<u8> = vec![slot, 0xFF, i as u8];
            assert(data@ =~= seq![slot, 0xFFu8, i as u8]);
            let ghost before = list@;
            list.push(
                Request::frame(
                    cmd,
                    data,
                    ChecksumType::Bit7,
                    Delivery::QueryPage(INPUT_REPORT_SIZE),
                ),
            );
            assert(requests(list@) =~= requests(before).push(list@.last()@));
            assert(all.take(i + 1) =~= all.take(i as int).push(all[i as int]));
            i += 1;
        }
        assert(all.take(i as int) =~= all);
        match read_block(list, replies, 0) {
            Part::Ask(request) => Step::Ask(request),
            Part::Failed { error, .. } => Step::Done(Err(error)),
            Part::Found { value, .. } => {
                let n: usize = if value.len() < USERPIC_SIZE {
                    value.len()
                } else {
                    USERPIC_SIZE
                };
                let out: Vec<u8> = crate::bits::sub_bytes(value.as_slice(), 0, n);
                assert(out@ =~= up_to(value@, USERPIC_SIZE as nat));
                Step::Done(Ok(out))
            },
        }
    }

    /// Stream the colors of all keys to an LED bank, `repeat` times but at least once.
    /// Keys without a color go dark.
    pub fn set_per_key_colors_fast(
        &self,
        colors: &[(u8, u8, u8)],
        repeat: u8,
        led_layer: u8,
        replies: &[Reply],
    ) -> (r: Step<()>)
        ensures
            r@ == sent(
                seen(replies@),
                repeated_list(
                    color_chunks(
                        self.commands.set_userpic,
                        led_layer,
                        full_colors(colors@, self.matrix_len()),
                    ),
                    sends(repeat),
                ),
            ),
    {
        let size: usize = self.matrix_size();
        let ghost wanted = full_colors(colors@, size as nat);
        let mut full: Vec<(u8, u8, u8)> = Vec::new();
        let mut i: usize = 0;
        while i < size
            invariant
                i <= size,
                wanted == full_colors(colors@, size as nat),
                full@ == wanted.take(i as int),
            decreases size - i,
        {
            let c: (u8, u8, u8) = if i < colors.len() {
                colors[i]
            } else {
                (0, 0, 0)
            };
            full.push(c);
            assert(wanted.take(i + 1) =~= wanted.take(i as int).push(wanted[i as int]));
            i += 1;
        }
        assert(wanted.take(i as int) =~= wanted);
        let times: u8 = if repeat == 0 {
            1
        } else {
            repeat
        };
        let cmd: u8 = self.commands.set_userpic;
        let ghost once = color_chunks(cmd, led_layer, full@);
        let mut list: Vec<Request> = Vec::new();
        let mut k: u8 = 0;
        assert(requests(list@) =~= repeated_list(once, 0));
        while k < times
            invariant
                k <= times,
                once == color_chunks(cmd, led_layer, full@),
                requests(list@) == repeated_list(once, k as nat),
            decreases times - k,
        {
            let ghost before = list@;
            let mut part: Vec<Request> = color_requests(cmd, led_layer, &full);
            let ghost added = part@;
            list.append(&mut part);
            assert(requests(list@) =~= requests(before) + requests(added));
            k += 1;
        }
        send_all(list, replies)
    }

    /// Store the colors of all keys in an LED bank.
    pub fn set_per_key_colors_to_layer(
        &self,
        colors: &[(u8, u8, u8)],
        led_layer: u8,
        replies: &[Reply],
    ) -> (r: Step<()>)
        ensures
            r@ == sent(
                seen(replies@),
                color_chunks(
                    self.commands.set_userpic,
                    led_layer,
                    full_colors(colors@, self.matrix_len()),
                ),
            ),
    {
        proof {
            let once = color_chunks(
                self.commands.set_userpic,
                led_layer,
                full_colors(colors@, self.matrix_len()),
            );
            reveal_with_fuel(repeated_list, 2);
            assert(repeated_list(once, 1) =~= once);
        }
        self.set_per_key_colors_fast(colors, 1, led_layer, replies)
    }

    /// Set all keys to one color.
    pub fn set_all_keys_color(&self, color: RgbColor, led_layer: u8, replies: &[Reply]) -> (r: Step<
        (),
    >)
        ensures
            r@ == sent(
                seen(replies@),
                color_chunks(
                    self.commands.set_userpic,
                    led_layer,
                    Seq::new(self.matrix_len(), |i: int| (color.r, color.g, color.b)),
                ),
            ),
    {
        let size: usize = self.matrix_size();
        let mut colors: Vec<(u8, u8, u8)> = Vec::new();
        while colors.len() < size
            invariant
                colors@.len() <= size,
                forall|i: int|
                    0 <= i < colors@.len() ==> colors@[i] == (color.r, color.g, color.b),
            decreases size - colors@.len(),
        {
            colors.push((color.r, color.g, color.b));
        }
        assert(full_colors(colors@, self.matrix_len()) =~= Seq::new(
            self.matrix_len(),
            |i: int| (color.r, color.g, color.b),
        ));
        self.set_per_key_colors_to_layer(colors.as_slice(), led_layer, replies)
    }

    /// Stream a page of colors to the frame buffer (patched firmware): 18 keys, black
    /// where the data ends.
    pub fn stream_led_page(&self, page: u8, rgb_data: &[u8], replies: &[Reply]) -> (r: Step<()>)
        ensures
            r@ == sent(
                seen(replies@),
                seq![
                    stream(
                        self.commands.led_stream,
                        seq![page] + zero_padded(up_to(rgb_data@, 54), 54),
                    ),
                ],
            ),
    {
        let data: Vec<u8> = framed_bytes(page, rgb_data, 54);
        send_one(stream_request(self.commands.led_stream, data), replies)
    }

    /// Show the streamed colors.
    pub fn stream_led_commit(&self, replies: &[Reply]) -> (r: Step<()>)
        ensures
            r@ == sent(seen(replies@), seq![stream(self.commands.led_stream, seq![0xFFu8])]),
    {
        let data: Vec<u8> = vec![0xFF];
        assert(data@ =~= seq![0xFFu8]);
        send_one(stream_request(self.commands.led_stream, data), replies)
    }

    /// Set single LEDs, as `(grid position, r, g, b)`.
    pub fn stream_led_sparse(&self, entries: &[(u8, u8, u8, u8)], replies: &[Reply]) -> (r: Step<()>)
        ensures
            r@ == sent(seen(replies@), sparse_chunks(self.commands.led_stream, entries@)),
    {
        let cmd: u8 = self.commands.led_stream;
        let chunks: usize = count_pages(entries.len(), SPARSE_PER_CHUNK);
        let ghost all = sparse_chunks(cmd, entries@);
        let mut list: Vec<Request> = Vec::new();
        let mut i: usize = 0;
        while i < chunks
            invariant
                all == sparse_chunks(cmd, entries@),
                chunks == page_count(entries@.len(), 13),
                i <= chunks,
                requests(list@) == all.take(i as int),
            decreases chunks - i,
        {
            let ghost before = list@;
            list.push(sparse_request(cmd, entries, i));
            assert(requests(list@) =~= requests(before).push(list@.last()@));
            assert(all.take(i + 1) =~= all.take(i as int).push(all[i as int]));
            i += 1;
        }
        assert(all.take(i as int) =~= all);
        send_all(list, replies)
    }

    /// End a streaming session.
    pub fn stream_led_release(&self, replies: &[Reply]) -> (r: Step<()>)
        ensures
            r@ == sent(seen(replies@), seq![stream(self.commands.led_stream, seq![0xFEu8])]),
    {
        let data: Vec<u8> = vec![0xFE];
        assert(data@ =~= seq![0xFEu8]);
        send_one(stream_request(self.commands.led_stream, data), replies)
    }
}

/// An unprotected streaming request without a pause.
fn stream_request(cmd: u8, data: Vec<u8>) -> (r: Request)
    ensures
        r@ == stream(cmd, data@),
{
    Request::frame(cmd, data, ChecksumType::Unprotected, Delivery::SendThenWait(0))
}

} // verus!
