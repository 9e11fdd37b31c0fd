//! Macro data: encoding, paging, reading and parsing.

use crate::bits::{high_byte, le16, le_bytes, lemma_byte_masks, low_byte, sub_bytes, word};
use crate::error::{unexpected, ErrorView, KeyboardError};
use crate::exchange::{reply_view, seen, Reply, ReplyView, Step, StepView};
use crate::protocol::{
    raw, requests, ChecksumType, Delivery, MacroSlot, Request, RequestView, INPUT_REPORT_SIZE,
};
use vstd::prelude::*;

verus! {

/// Bytes of macro data in one page on the way to the keyboard.
pub const MACRO_PAGE_SIZE: usize = 56;

/// Pages of a macro on the way from the keyboard.
pub const MACRO_READ_PAGES: u8 = 4;

/// A single macro event.
#[derive(Debug, Clone, Copy, PartialEq, Eq, Structural)]
pub struct MacroEvent {
    pub keycode: u8,
    pub is_down: bool,
    pub delay_ms: u16,
}

/// The direction bit of an event.
pub open spec fn direction_bit(is_down: bool) -> u8 {
    if is_down {
        128
    } else {
        0
    }
}

/// Whether a delay fits the short form.
pub open spec fn short_delay(delay: u16) -> bool {
    1 <= delay <= 127
}

/// An event as bytes: `[keycode, direction | delay]` for a delay of 1 to 127ms,
/// `[keycode, direction, delay_lo, delay_hi]` otherwise. A delay of zero takes the long
/// form, because low bits of zero announce it.
pub open spec fn event_bytes(e: MacroEvent) -> Seq<u8> {
    if short_delay(e.delay_ms) {
        seq![e.keycode, (direction_bit(e.is_down) + e.delay_ms) as u8]
    } else {
        seq![e.keycode, direction_bit(e.is_down)] + le_bytes(e.delay_ms)
    }
}

/// The bytes of a list of events.
pub open spec fn events_bytes(events: Seq<MacroEvent>) -> Seq<u8>
    decreases events.len(),
{
    if events.len() == 0 {
        Seq::empty()
    } else {
        events_bytes(events.drop_last()) + event_bytes(events.last())
    }
}

/// `data` filled up with zeros to `len` bytes.
pub open spec fn zero_padded(data: Seq<u8>, len: nat) -> Seq<u8> {
    if data.len() < len {
        data + Seq::new((len - data.len()) as nat, |i: int| 0u8)
    } else {
        data
    }
}

/// A whole macro: the repeat count, the events, and zeros to fill the first page.
pub open spec fn macro_data(events: Seq<MacroEvent>, repeat_count: u16) -> Seq<u8> {
    zero_padded(le_bytes(repeat_count) + events_bytes(events), MACRO_PAGE_SIZE as nat)
}

/// The events that `data` holds from `pos` on: up to the end marker `[0, 0]` or to the
/// end of the data.
pub open spec fn parsed_events(data: Seq<u8>, pos: int) -> Seq<MacroEvent>
    decreases data.len() - pos,
{
    if pos < 0 || pos + 1 >= data.len() || (data[pos] == 0 && data[pos + 1] == 0) {
        Seq::empty()
    } else {
        let low = data[pos + 1] % 128;
        let is_down = data[pos + 1] >= 128;
        if low == 0 && pos + 3 < data.len() {
            seq![
                MacroEvent {
                    keycode: data[pos],
                    is_down,
                    delay_ms: le16(data[pos + 2], data[pos + 3]),
                },
            ] + parsed_events(data, pos + 4)
        } else {
            seq![MacroEvent { keycode: data[pos], is_down, delay_ms: low as u16 }] + parsed_events(
                data,
                pos + 2,
            )
        }
    }
}

/// Parse raw macro data into repeat count and events.
///
/// `data` starts with the repeat count, two bytes, low byte first. Parsing stops at the
/// end marker `[0, 0]` or at the end of the data.
pub fn parse_macro_events(data: &[u8]) -> (r: (u16, Vec<MacroEvent>))
    ensures
        data@.len() < 2 ==> r.0 == 0 && r.1@ == Seq::<MacroEvent>::empty(),
        data@.len() >= 2 ==> r.0 == le16(data@[0], data@[1]) && r.1@ == parsed_events(data@, 2),
{
    if data.len() < 2 {
        return (0, Vec::new());
    }
    let repeat_count: u16 = word(data[0], data[1]);
    let mut events: Vec<MacroEvent> = Vec::new();
    let n: usize = data.len();
    let mut pos: usize = 2;
    while n >= 2 && pos < n - 1
        invariant_except_break
            events@ + parsed_events(data@, pos as int) == parsed_events(data@, 2),
        invariant
            2 <= n == data@.len(),
            2 <= pos <= n,
        ensures
            events@ == parsed_events(data@, 2),
        decreases n - pos,
    {
        let keycode: u8 = data[pos];
        let flags: u8 = data[pos + 1];
        if keycode == 0 && flags == 0 {
            break;
        }
        proof {
            lemma_byte_masks(flags);
        }
        let is_down: bool = (flags & 0x80) != 0;
        let delay_low_bits: u8 = flags & 0x7F;
        let ghost before = events@;
        if delay_low_bits == 0 && n >= 4 && pos < n - 3 {
            let delay_ms: u16 = word(data[pos + 2], data[pos + 3]);
            events.push(MacroEvent { keycode, is_down, delay_ms });
            assert(before + parsed_events(data@, pos as int) =~= events@ + parsed_events(
                data@,
                pos + 4,
            ));
            pos += 4;
        } else {
            events.push(MacroEvent { keycode, is_down, delay_ms: delay_low_bits as u16 });
            assert(before + parsed_events(data@, pos as int) =~= events@ + parsed_events(
                data@,
                pos + 2,
            ));
            pos += 2;
        }
    }
    (repeat_count, events)
}

/// Encode a macro: repeat count, events, and zeros to fill the first page.
pub fn encode_macro(events: &[MacroEvent], repeat_count: u16) -> (r: Vec<u8>)
    ensures
        r@ == macro_data(events@, repeat_count),
        r@.len() >= MACRO_PAGE_SIZE,
{
    let mut out: Vec<u8> = Vec::new();
    out.push(low_byte(repeat_count));
    out.push(high_byte(repeat_count));
    let mut i: usize = 0;
    assert(events@.take(0) =~= Seq::<MacroEvent>::empty());
    assert(out@ =~= le_bytes(repeat_count) + events_bytes(events@.take(0)));
    while i < events.len()
        invariant
            i <= events@.len(),
            out@ == le_bytes(repeat_count) + events_bytes(events@.take(i as int)),
        decreases events@.len() - i,
    {
        let e: MacroEvent = events[i];
        let ghost before = out@;
        assert(events@.take(i + 1).drop_last() =~= events@.take(i as int));
        out.push(e.keycode);
        if 1 <= e.delay_ms && e.delay_ms <= 127 {
            let d: u8 = e.delay_ms as u8;
            proof {
                lemma_byte_masks(d);
            }
            let flags: u8 = if e.is_down {
                0x80 + d
            } else {
                d
            };
            out.push(flags);
        } else {
            out.push(if e.is_down { 0x80 } else { 0x00 });
            out.push(low_byte(e.delay_ms));
            out.push(high_byte(e.delay_ms));
        }
        assert(out@ =~= before + event_bytes(e));
        i += 1;
        assert(out@ =~= le_bytes(repeat_count) + events_bytes(events@.take(i as int)));
    }
    assert(events@.take(i as int) =~= events@);
    let ghost body = out@;
    while out.len() < MACRO_PAGE_SIZE
        invariant
            body == le_bytes(repeat_count) + events_bytes(events@),
            body.len() <= out@.len(),
            out@.len() <= MACRO_PAGE_SIZE || out@.len() == body.len(),
            out@ == body + Seq::new((out@.len() - body.len()) as nat, |i: int| 0u8),
        decreases MACRO_PAGE_SIZE - out@.len(),
    {
        let ghost n = (out@.len() - body.len()) as nat;
        out.push(0);
        assert(Seq::new(n, |i: int| 0u8).push(0u8) =~= Seq::new(n + 1, |i: int| 0u8));
        assert(out@ =~= body + Seq::new(n + 1, |i: int| 0u8));
    }
    assert(out@ =~= macro_data(events@, repeat_count));
    out
}

/// The bytes of the page `page` when `data` is cut into pages of `size`.
pub open spec fn page_bytes(data: Seq<u8>, page: int, size: int) -> Seq<u8> {
    data.subrange(
        page * size,
        if (page + 1) * size < data.len() {
            (page + 1) * size
        } else {
            data.len() as int
        },
    )
}

/// How many pages of `size` hold `len` bytes.
pub open spec fn page_count(len: nat, size: nat) -> nat
    recommends
        size > 0,
{
    (len + size - 1) as nat / size
}

/// The requests that store `data` in a macro slot.
pub open spec fn macro_pages(slot: MacroSlot, data: Seq<u8>) -> Seq<RequestView> {
    let n = page_count(data.len(), MACRO_PAGE_SIZE as nat);
    Seq::new(
        n,
        |i: int|
            RequestView::MacroPage {
                slot,
                page: (i % 256) as u8,
                last: i == n - 1,
                chunk: page_bytes(data, i, MACRO_PAGE_SIZE as int),
                wait_ms: 30,
            },
    )
}

/// Cut encoded macro data into the pages that store it.
pub fn paged_macro(slot: MacroSlot, data: &[u8]) -> (r: Vec<Request>)
    ensures
        requests(r@) == macro_pages(slot, data@),
{
    let mut out: Vec<Request> = Vec::new();
    let n: usize = data.len();
    let pages: usize = n / MACRO_PAGE_SIZE + if n % MACRO_PAGE_SIZE == 0 {
        0
    } else {
        1
    };
    assert(pages == page_count(data@.len(), 56));
    let mut page: usize = 0;
    while page < pages
        invariant
            n == data@.len(),
            pages == page_count(data@.len(), 56),
            page <= pages,
            requests(out@) == macro_pages(slot, data@).take(page as int),
        decreases pages - page,
    {
        let start: usize = page * MACRO_PAGE_SIZE;
        let end: usize = if n - start > MACRO_PAGE_SIZE {
            start + MACRO_PAGE_SIZE
        } else {
            n
        };
        let chunk: Vec<u8> = sub_bytes(data, start, end);
        let ghost before = out@;
        out.push(
            Request::MacroPage {
                slot,
                page: (page % 256) as u8,
                last: page == pages - 1,
                chunk,
                wait_ms: 30,
            },
        );
        assert(chunk@ == page_bytes(data@, page as int, 56));
        assert(requests(out@) =~= requests(before).push(out@.last()@));
        assert(macro_pages(slot, data@).take(page + 1) =~= macro_pages(slot, data@).take(
            page as int,
        ).push(macro_pages(slot, data@)[page as int]));
        page += 1;
    }
    assert(macro_pages(slot, data@).take(page as int) =~= macro_pages(slot, data@));
    out
}

/// Every byte of the data goes out, in order, in the pages that store a macro.
pub proof fn macro_pages_cover(slot: MacroSlot, data: Seq<u8>, i: int)
    requires
        0 <= i < data.len(),
    ensures
        ({
            let p = i / MACRO_PAGE_SIZE as int;
            let pages = macro_pages(slot, data);
            &&& 0 <= p < pages.len()
            &&& pages[p] matches RequestView::MacroPage { chunk, .. }
            &&& (i % MACRO_PAGE_SIZE as int) < chunk.len()
            &&& chunk[i % MACRO_PAGE_SIZE as int] == data[i]
        }),
{
}

/// Whether an event would read as the end marker.
pub open spec fn reads_as_end(e: MacroEvent) -> bool {
    e.keycode == 0 && !e.is_down && !short_delay(e.delay_ms)
}

/// Appending events at the front moves the rest back by their bytes.
pub proof fn lemma_events_bytes_first(events: Seq<MacroEvent>)
    requires
        events.len() > 0,
    ensures
        events_bytes(events) == event_bytes(events[0]) + events_bytes(events.drop_first()),
    decreases events.len(),
{
    if events.len() == 1 {
        assert(events.drop_last() =~= Seq::empty());
        assert(events.drop_first() =~= Seq::empty());
        assert(events_bytes(events) =~= event_bytes(events[0]) + events_bytes(
            events.drop_first(),
        ));
    } else {
        lemma_events_bytes_first(events.drop_last());
        assert(events.drop_last().drop_first() =~= events.drop_first().drop_last());
        assert(events_bytes(events) =~= event_bytes(events[0]) + (events_bytes(
            events.drop_first().drop_last(),
        ) + event_bytes(events.last())));
    }
}

/// Whether what stands behind the events ends them: too little for an event, or the
/// end marker.
pub open spec fn ends_events(tail: Seq<u8>) -> bool {
    tail.len() < 2 || (tail[0] == 0 && tail[1] == 0)
}

/// Parsing from where the events start gives the events, and what the rest parses as.
proof fn lemma_parse_encoded(data: Seq<u8>, pos: int, events: Seq<MacroEvent>, tail: Seq<u8>)
    requires
        2 <= pos <= data.len(),
        data.skip(pos) == events_bytes(events) + tail,
        forall|i: int| 0 <= i < events.len() ==> !reads_as_end(#[trigger] events[i]),
    ensures
        parsed_events(data, pos) == events + parsed_events(data, pos + events_bytes(events).len()),
    decreases events.len(),
{
    let rest = data.skip(pos);
    if events.len() == 0 {
        assert(parsed_events(data, pos) =~= events + parsed_events(data, pos));
    } else {
        lemma_events_bytes_first(events);
        let e = events[0];
        let b = event_bytes(e);
        let more = events.drop_first();
        let end = parsed_events(data, pos + events_bytes(events).len());
        assert(rest =~= b + (events_bytes(more) + tail));
        assert(!reads_as_end(e));
        assert(data[pos] == rest[0] && data[pos + 1] == rest[1]);
        assert(rest[0] == b[0] && rest[1] == b[1]);
        assert forall|i: int| 0 <= i < more.len() implies !reads_as_end(#[trigger] more[i]) by {
            assert(more[i] == events[i + 1]);
        }
        if short_delay(e.delay_ms) {
            assert(data.skip(pos + 2) =~= rest.skip(2));
            assert(rest.skip(2) =~= events_bytes(more) + tail);
            lemma_parse_encoded(data, pos + 2, more, tail);
            assert(parsed_events(data, pos) =~= seq![e] + (more + end));
        } else {
            assert(data[pos + 2] == rest[2] && data[pos + 3] == rest[3]);
            assert(rest[2] == b[2] && rest[3] == b[3]);
            assert(data.skip(pos + 4) =~= rest.skip(4));
            assert(rest.skip(4) =~= events_bytes(more) + tail);
            lemma_parse_encoded(data, pos + 4, more, tail);
            crate::bits::le_bytes_round_trip(e.delay_ms);
            assert(parsed_events(data, pos) =~= seq![e] + (more + end));
        }
        assert(seq![e] + (more + end) =~= events + end);
    }
}

/// A macro that is encoded and parsed again is the same, whatever stands behind its
/// end, as long as no event reads as the end marker.
pub proof fn macro_round_trip(events: Seq<MacroEvent>, repeat_count: u16, tail: Seq<u8>)
    requires
        forall|i: int| 0 <= i < events.len() ==> !reads_as_end(#[trigger] events[i]),
        ends_events(tail),
    ensures
        ({
            let data = le_bytes(repeat_count) + events_bytes(events) + tail;
            &&& le16(data[0], data[1]) == repeat_count
            &&& parsed_events(data, 2) == events
        }),
{
    let data = le_bytes(repeat_count) + events_bytes(events) + tail;
    assert(data.skip(2) =~= events_bytes(events) + tail);
    crate::bits::le_bytes_round_trip(repeat_count);
    lemma_parse_encoded(data, 2, events, tail);
    let end = 2 + events_bytes(events).len() as int;
    assert(data.skip(end) =~= tail);
    if tail.len() >= 2 {
        assert(data[end] == tail[0] && data[end + 1] == tail[1]);
    }
    assert(parsed_events(data, 2) =~= events);
}

/// The data that is stored for a macro parses as the macro, as long as no event reads
/// as the end marker.
pub proof fn stored_macro_parses(events: Seq<MacroEvent>, repeat_count: u16)
    requires
        forall|i: int| 0 <= i < events.len() ==> !reads_as_end(#[trigger] events[i]),
    ensures
        ({
            let data = macro_data(events, repeat_count);
            &&& data.len() >= MACRO_PAGE_SIZE
            &&& le16(data[0], data[1]) == repeat_count
            &&& parsed_events(data, 2) == events
        }),
{
    let data = macro_data(events, repeat_count);
    let body = le_bytes(repeat_count) + events_bytes(events);
    let tail = data.skip(body.len() as int);
    assert(data =~= body + tail);
    macro_round_trip(events, repeat_count, tail);
}

/// The key strokes of one character: a key, and whether shift goes with it. `None` is
/// a character that no key types.
pub type Stroke = Option<(u8, bool)>;

/// HID code of the left shift key.
pub const LSHIFT: u8 = 0xE1;

/// The events that type one character.
pub open spec fn stroke_events(s: Stroke, delay_ms: u16) -> Seq<MacroEvent> {
    match s {
        None => Seq::empty(),
        Some((keycode, shift)) => if shift {
            seq![
                MacroEvent { keycode: LSHIFT, is_down: true, delay_ms: 0 },
                MacroEvent { keycode, is_down: true, delay_ms },
                MacroEvent { keycode, is_down: false, delay_ms: 0 },
                MacroEvent { keycode: LSHIFT, is_down: false, delay_ms },
            ]
        } else {
            seq![
                MacroEvent { keycode, is_down: true, delay_ms },
                MacroEvent { keycode, is_down: false, delay_ms },
            ]
        },
    }
}

/// The events that type a text.
pub open spec fn typing_events(strokes: Seq<Stroke>, delay_ms: u16) -> Seq<MacroEvent>
    decreases strokes.len(),
{
    if strokes.len() == 0 {
        Seq::empty()
    } else {
        typing_events(strokes.drop_last(), delay_ms) + stroke_events(strokes.last(), delay_ms)
    }
}

/// The events that type a text. Characters without a key are left out.
pub fn text_macro_events(strokes: &[Stroke], delay_ms: u16) -> (r: Vec<MacroEvent>)
    ensures
        r@ == typing_events(strokes@, delay_ms),
{
    let mut out: Vec<MacroEvent> = Vec::new();
    let mut i: usize = 0;
    assert(strokes@.take(0) =~= Seq::<Stroke>::empty());
    while i < strokes.len()
        invariant
            i <= strokes@.len(),
            out@ == typing_events(strokes@.take(i as int), delay_ms),
        decreases strokes@.len() - i,
    {
        let ghost before = out@;
        assert(strokes@.take(i + 1).drop_last() =~= strokes@.take(i as int));
        match strokes[i] {
            None => {},
            Some((keycode, shift)) => {
                if shift {
                    out.push(MacroEvent { keycode: LSHIFT, is_down: true, delay_ms: 0 });
                    out.push(MacroEvent { keycode, is_down: true, delay_ms });
                    out.push(MacroEvent { keycode, is_down: false, delay_ms: 0 });
                    out.push(MacroEvent { keycode: LSHIFT, is_down: false, delay_ms });
                } else {
                    out.push(MacroEvent { keycode, is_down: true, delay_ms });
                    out.push(MacroEvent { keycode, is_down: false, delay_ms });
                }
            },
        }
        assert(out@ =~= before + stroke_events(strokes@[i as int], delay_ms));
        i += 1;
    }
    assert(strokes@.take(i as int) =~= strokes@);
    out
}

/// How often a key goes down, or up.
pub open spec fn times(events: Seq<MacroEvent>, keycode: u8, is_down: bool) -> nat
    decreases events.len(),
{
    if events.len() == 0 {
        0
    } else {
        times(events.drop_last(), keycode, is_down) + (if events.last().keycode == keycode
            && events.last().is_down == is_down {
            1nat
        } else {
            0nat
        })
    }
}

/// Counts add up over two lists.
proof fn lemma_times_add(a: Seq<MacroEvent>, b: Seq<MacroEvent>, keycode: u8, is_down: bool)
    ensures
        times(a + b, keycode, is_down) == times(a, keycode, is_down) + times(b, keycode, is_down),
    decreases b.len(),
{
    if b.len() == 0 {
        assert(a + b =~= a);
    } else {
        assert((a + b).drop_last() =~= a + b.drop_last());
        lemma_times_add(a, b.drop_last(), keycode, is_down);
    }
}

/// Every key that typing a text presses is released: each key goes up as often as down.
pub proof fn typing_releases_keys(strokes: Seq<Stroke>, delay_ms: u16, keycode: u8)
    ensures
        times(typing_events(strokes, delay_ms), keycode, true) == times(
            typing_events(strokes, delay_ms),
            keycode,
            false,
        ),
    decreases strokes.len(),
{
    if strokes.len() > 0 {
        let a = typing_events(strokes.drop_last(), delay_ms);
        let b = stroke_events(strokes.last(), delay_ms);
        typing_releases_keys(strokes.drop_last(), delay_ms, keycode);
        lemma_times_add(a, b, keycode, true);
        lemma_times_add(a, b, keycode, false);
        reveal_with_fuel(times, 6);
        assert(b.len() > 0 ==> b.drop_last().len() == b.len() - 1);
    }
}

/// A page without the command echo that some transports put in front.
pub open spec fn without_echo(page: Seq<u8>, cmd: u8) -> Seq<u8> {
    if page.len() > 0 && page[0] == cmd {
        page.skip(1)
    } else {
        page
    }
}

/// Whether four zeros in a row stand at `i`.
pub open spec fn zeros_at(page: Seq<u8>, i: int) -> bool {
    0 <= i && i + 3 < page.len() && page[i] == 0 && page[i + 1] == 0 && page[i + 2] == 0 && page[i
        + 3] == 0
}

/// Whether a page holds the end of a macro: four zeros in a row.
pub open spec fn has_end(page: Seq<u8>) -> bool {
    exists|i: int| #[trigger] zeros_at(page, i)
}

/// Whether a page holds four zeros in a row.
fn holds_end(page: &[u8]) -> (r: bool)
    ensures
        r == has_end(page@),
{
    let n: usize = page.len();
    let mut i: usize = 0;
    while n >= 4 && i < n - 3
        invariant
            n == page@.len(),
            i <= n,
            forall|k: int| 0 <= k < i ==> !#[trigger] zeros_at(page@, k),
        decreases n - i,
    {
        if page[i] == 0 && page[i + 1] == 0 && page[i + 2] == 0 && page[i + 3] == 0 {
            assert(zeros_at(page@, i as int));
            return true;
        }
        i += 1;
    }
    false
}

/// What the data that was read comes to. A slot that was never written holds only
/// 0xFF and counts as empty.
pub open spec fn macro_found(data: Seq<u8>) -> Result<Seq<u8>, ErrorView> {
    if data.len() == 0 {
        Err(unexpected("No macro data"@))
    } else if forall|i: int| 0 <= i < data.len() ==> data[i] == 0xFF {
        Ok(seq![0u8, 0u8])
    } else {
        Ok(data)
    }
}

/// The request for one page of a macro.
pub open spec fn macro_page_request(cmd: u8, slot: MacroSlot, page: u8) -> RequestView {
    raw(cmd, seq![slot.slot, page], ChecksumType::Bit7, Delivery::QueryPage(INPUT_REPORT_SIZE))
}

/// Reading a macro, with `page` pages in that held `data`: page by page, until a page
/// holds the end or all pages are in.
pub open spec fn macro_read(
    cmd: u8,
    slot: MacroSlot,
    replies: Seq<ReplyView>,
    page: nat,
    data: Seq<u8>,
) -> StepView<Seq<u8>>
    decreases MACRO_READ_PAGES - page,
{
    if page >= MACRO_READ_PAGES {
        StepView::Done(macro_found(data))
    } else if page >= replies.len() {
        StepView::Ask(macro_page_request(cmd, slot, page as u8))
    } else {
        match replies[page as int] {
            Err(e) => StepView::Done(Err(e)),
            Ok(d) => {
                let body = without_echo(d, cmd);
                if has_end(body) {
                    StepView::Done(macro_found(data + body))
                } else {
                    macro_read(cmd, slot, replies, page + 1, data + body)
                }
            },
        }
    }
}

/// The macro data, or the error that there is none.
fn found_macro(data: Vec<u8>) -> (r: Result<Vec<u8>, KeyboardError>)
    ensures
        match r {
            Ok(v) => macro_found(data@) == Ok::<Seq<u8>, ErrorView>(v@),
            Err(e) => macro_found(data@) == Err::<Seq<u8>, ErrorView>(e@),
        },
{
    if data.len() == 0 {
        return Err(KeyboardError::unexpected_response("No macro data"));
    }
    let mut i: usize = 0;
    while i < data.len()
        invariant
            i <= data@.len(),
            forall|k: int| 0 <= k < i ==> data@[k] == 0xFF,
        decreases data@.len() - i,
    {
        if data[i] != 0xFF {
            return Ok(data);
        }
        i += 1;
    }
    let mut empty: Vec<u8> = Vec::new();
    empty.push(0);
    empty.push(0);
    assert(empty@ =~= seq![0u8, 0u8]);
    Ok(empty)
}

/// Read a macro: up to four pages, stopping behind the page that holds the end.
pub fn read_macro(cmd: u8, slot: MacroSlot, replies: &[Reply]) -> (r: Step<Vec<u8>>)
    ensures
        r@ == macro_read(cmd, slot, seen(replies@), 0, Seq::empty()),
{
    let mut data: Vec<u8> = Vec::new();
    let mut page: u8 = 0;
    while page < MACRO_READ_PAGES
        invariant
            page <= MACRO_READ_PAGES,
            macro_read(cmd, slot, seen(replies@), 0, Seq::empty()) == macro_read(
                cmd,
                slot,
                seen(replies@),
                page as nat,
                data@,
            ),
        decreases MACRO_READ_PAGES - page,
    {
        let at: usize = page as usize;
        if at >= replies.len() {
            let mut query: Vec<u8> = Vec::new();
            query.push(slot.slot);
            query.push(page);
            assert(query@ =~= seq![slot.slot, page]);
            return Step::Ask(
                Request::frame(
                    cmd,
                    query,
                    ChecksumType::Bit7,
                    Delivery::QueryPage(INPUT_REPORT_SIZE),
                ),
            );
        }
        assert(seen(replies@)[at as int] == reply_view(replies@[at as int]));
        match &replies[at] {
            Err(e) => {
                return Step::Done(Err(e.copy()));
            },
            Ok(d) => {
                let start: usize = if d.len() > 0 && d[0] == cmd {
                    1
                } else {
                    0
                };
                let mut body: Vec<u8> = sub_bytes(d.as_slice(), start, d.len());
                assert(body@ =~= without_echo(d@, cmd));
                let end: bool = holds_end(body.as_slice());
                data.append(&mut body);
                if end {
                    return Step::Done(found_macro(data));
                }
            },
        }
        page += 1;
    }
    Step::Done(found_macro(data))
}

/// Bytes of a macro that can be read back.
pub const MACRO_READ_SIZE: usize = 256;

/// Among events whose keys are not 0, no four zeros stand in a row.
proof fn lemma_no_zero_window(events: Seq<MacroEvent>, j: int)
    requires
        forall|i: int| 0 <= i < events.len() ==> (#[trigger] events[i]).keycode != 0,
    ensures
        !zeros_at(events_bytes(events), j),
        events.len() > 0 ==> events_bytes(events).len() > 0 && events_bytes(events)[0] != 0,
    decreases events.len(),
{
    if events.len() > 0 {
        lemma_events_bytes_first(events);
        let b = event_bytes(events[0]);
        let more = events.drop_first();
        let rest = events_bytes(more);
        assert forall|i: int| 0 <= i < more.len() implies (#[trigger] more[i]).keycode != 0 by {
            assert(more[i] == events[i + 1]);
        }
        lemma_no_zero_window(more, j - b.len());
        assert(events_bytes(events) == b + rest);
        assert(events[0].keycode != 0 && b[0] == events[0].keycode);
        if zeros_at(b + rest, j) {
            if j >= b.len() {
                assert(rest[j - b.len()] == (b + rest)[j]);
                assert(rest[j - b.len() + 1] == (b + rest)[j + 1]);
                assert(rest[j - b.len() + 2] == (b + rest)[j + 2]);
                assert(rest[j - b.len() + 3] == (b + rest)[j + 3]);
                assert(zeros_at(rest, j - b.len()));
            } else if j > 0 {
                assert(more.len() > 0);
                assert((b + rest)[b.len() as int] == rest[0]);
                assert(j < b.len() <= j + 3);
            }
        }
    } else {
        assert(events_bytes(events).len() == 0);
    }
}

/// Four zeros in a row reach behind the end of the macro.
proof fn lemma_zero_window_at_end(
    events: Seq<MacroEvent>,
    repeat_count: u16,
    memory: Seq<u8>,
    j: int,
)
    requires
        forall|i: int| 0 <= i < events.len() ==> (#[trigger] events[i]).keycode != 0,
        ({
            let body = le_bytes(repeat_count) + events_bytes(events);
            body.len() <= memory.len() && memory.take(body.len() as int) == body
        }),
        zeros_at(memory, j),
    ensures
        j + 4 > 2 + events_bytes(events).len(),
{
    let bytes = events_bytes(events);
    let body = le_bytes(repeat_count) + bytes;
    if j + 4 <= body.len() {
        assert forall|k: int| 0 <= k < body.len() implies body[k] == #[trigger] memory[k] by {
            assert(memory.take(body.len() as int)[k] == memory[k]);
        }
        assert(body[j] == 0 && body[j + 1] == 0 && body[j + 2] == 0 && body[j + 3] == 0);
        lemma_no_zero_window(events, j - 2);
        if events.len() > 0 {
            assert(bytes[0] == body[2]);
        }
        if j >= 2 {
            assert(bytes[j - 2] == body[j]);
            assert(bytes[j - 1] == body[j + 1]);
            assert(bytes[j] == body[j + 2]);
            assert(bytes[j + 1] == body[j + 3]);
            assert(zeros_at(bytes, j - 2));
        }
    }
}

/// How much of a macro has to be read to get it back: all of it, but for a delay of 0 at
/// its very end.
pub open spec fn needed_bytes(events: Seq<MacroEvent>) -> nat {
    if events.len() > 0 && events.last().delay_ms == 0 {
        events_bytes(events).len()
    } else {
        2 + events_bytes(events).len()
    }
}

/// A slot that holds a macro and zeros behind it.
pub open spec fn slot_memory(events: Seq<MacroEvent>, repeat_count: u16) -> Seq<u8> {
    zero_padded(macro_data(events, repeat_count), MACRO_READ_SIZE as nat)
}

/// Whether four zeros in a row end the reading of a macro while bytes of it are missing.
pub open spec fn ends_early(events: Seq<MacroEvent>, repeat_count: u16) -> bool {
    exists|page: int|
        0 <= page && (page + 1) * INPUT_REPORT_SIZE < needed_bytes(events) && has_end(
            #[trigger] page_bytes(
                slot_memory(events, repeat_count),
                page,
                INPUT_REPORT_SIZE as int,
            ),
        )
}

/// A macro of keys whose codes are not 0 is whole before it ends: none of its events reads
/// as the end marker, and no four zeros end the reading early.
pub proof fn macros_of_keys_do_not_end_early(events: Seq<MacroEvent>, repeat_count: u16)
    requires
        forall|i: int| 0 <= i < events.len() ==> (#[trigger] events[i]).keycode != 0,
    ensures
        forall|i: int| 0 <= i < events.len() ==> !reads_as_end(#[trigger] events[i]),
        !ends_early(events, repeat_count),
{
    let body = le_bytes(repeat_count) + events_bytes(events);
    let memory = slot_memory(events, repeat_count);
    assert(memory.take(body.len() as int) =~= body);
    if ends_early(events, repeat_count) {
        let page = choose|page: int|
            0 <= page && (page + 1) * INPUT_REPORT_SIZE < needed_bytes(events) && has_end(
                #[trigger] page_bytes(memory, page, INPUT_REPORT_SIZE as int),
            );
        let part = page_bytes(memory, page, INPUT_REPORT_SIZE as int);
        let k = choose|k: int| #[trigger] zeros_at(part, k);
        let j = page * 64 + k;
        assert(part[k] == memory[j] && part[k + 1] == memory[j + 1] && part[k + 2] == memory[j + 2]
            && part[k + 3] == memory[j + 3]);
        assert(zeros_at(memory, j));
        lemma_zero_window_at_end(events, repeat_count, memory, j);
    }
}

/// What is read of a slot that holds a macro and zeros, from the page `page` on.
proof fn lemma_macro_read(
    events: Seq<MacroEvent>,
    repeat_count: u16,
    cmd: u8,
    slot: MacroSlot,
    replies: Seq<ReplyView>,
    page: nat,
) -> (n: int)
    requires
        needed_bytes(events) <= MACRO_READ_SIZE,
        !ends_early(events, repeat_count),
        exists|i: int|
            0 <= i < MACRO_READ_SIZE && slot_memory(events, repeat_count)[i] != 0xFF,
        replies.len() >= MACRO_READ_PAGES,
        forall|p: int|
            0 <= p < MACRO_READ_PAGES ==> ((#[trigger] replies[p]) matches Ok(d) && without_echo(
                d,
                cmd,
            ) == page_bytes(slot_memory(events, repeat_count), p, INPUT_REPORT_SIZE as int)),
        page <= MACRO_READ_PAGES,
    ensures
        2 <= n <= MACRO_READ_SIZE,
        needed_bytes(events) <= n,
        macro_read(
            cmd,
            slot,
            replies,
            page,
            slot_memory(events, repeat_count).take((page * 64) as int),
        ) == StepView::<Seq<u8>>::Done(Ok(slot_memory(events, repeat_count).take(n))),
    decreases MACRO_READ_PAGES - page,
{
    let memory = slot_memory(events, repeat_count);
    if page >= MACRO_READ_PAGES {
        let i = choose|i: int| 0 <= i < MACRO_READ_SIZE && memory[i] != 0xFF;
        assert(memory.take(256)[i] != 0xFF);
        256
    } else {
        assert(replies[page as int] is Ok);
        let part = without_echo(replies[page as int]->Ok_0, cmd);
        assert(part == page_bytes(memory, page as int, 64));
        assert(memory.take((page * 64) as int) + part =~= memory.take(((page + 1) * 64) as int));
        if has_end(part) {
            let k = choose|k: int| #[trigger] zeros_at(part, k);
            let j = page * 64 + k;
            assert(part[k] == memory[j]);
            assert(memory.take(((page + 1) * 64) as int)[j] != 0xFF);
            ((page + 1) * 64) as int
        } else {
            lemma_macro_read(events, repeat_count, cmd, slot, replies, page + 1)
        }
    }
}

/// A macro whose last bytes are cut off parses as the macro, if they are a delay of 0.
proof fn lemma_cut_macro_parses(events: Seq<MacroEvent>, repeat_count: u16, data: Seq<u8>)
    requires
        forall|i: int| 0 <= i < events.len() ==> !reads_as_end(#[trigger] events[i]),
        events.len() > 0,
        events.last().delay_ms == 0,
        events_bytes(events).len() <= data.len() < 2 + events_bytes(events).len(),
        data == (le_bytes(repeat_count) + events_bytes(events)).take(data.len() as int),
    ensures
        le16(data[0], data[1]) == repeat_count,
        parsed_events(data, 2) == events,
{
    let whole = le_bytes(repeat_count) + events_bytes(events);
    let before = events.drop_last();
    let last = events.last();
    let at = 2 + events_bytes(before).len() as int;
    let tail = data.skip(at);
    assert(event_bytes(last) =~= seq![last.keycode, direction_bit(last.is_down), 0u8, 0u8]);
    assert(data.skip(2) =~= events_bytes(before) + tail);
    assert(data[at] == whole[at] && data[at + 1] == whole[at + 1]);
    assert(whole[at] == event_bytes(last)[0] && whole[at + 1] == event_bytes(last)[1]);
    crate::bits::le_bytes_round_trip(repeat_count);
    assert forall|i: int| 0 <= i < before.len() implies !reads_as_end(#[trigger] before[i]) by {
        assert(before[i] == events[i]);
    }
    lemma_parse_encoded(data, 2, before, tail);
    assert(!reads_as_end(events[events.len() - 1]));
    assert(parsed_events(data, at + 2) =~= Seq::<MacroEvent>::empty());
    assert(parsed_events(data, at) =~= seq![last]);
    assert(before + seq![last] =~= events);
}

/// Reading a slot gives back the macro that was written to it.
///
/// The slot holds the macro's data and zeros behind it; a page of it comes back with or
/// without the command echo in front. No event reads as the end marker, no four zeros in
/// a row end the reading early, the macro fits what is read, and that is not all 0xFF,
/// which reads as never written.
pub proof fn written_macro_is_read_back(
    events: Seq<MacroEvent>,
    repeat_count: u16,
    cmd: u8,
    slot: MacroSlot,
    replies: Seq<ReplyView>,
)
    requires
        forall|i: int| 0 <= i < events.len() ==> !reads_as_end(#[trigger] events[i]),
        !ends_early(events, repeat_count),
        needed_bytes(events) <= MACRO_READ_SIZE,
        exists|i: int|
            0 <= i < MACRO_READ_SIZE && slot_memory(events, repeat_count)[i] != 0xFF,
        replies.len() >= MACRO_READ_PAGES,
        forall|p: int|
            0 <= p < MACRO_READ_PAGES ==> ((#[trigger] replies[p]) matches Ok(d) && without_echo(
                d,
                cmd,
            ) == page_bytes(slot_memory(events, repeat_count), p, INPUT_REPORT_SIZE as int)),
    ensures
        macro_read(cmd, slot, replies, 0, Seq::empty()) matches StepView::Done(Ok(data))
            && data.len() >= 2 && le16(data[0], data[1]) == repeat_count && parsed_events(data, 2)
            == events,
{
    let body = le_bytes(repeat_count) + events_bytes(events);
    let memory = slot_memory(events, repeat_count);
    let n = lemma_macro_read(events, repeat_count, cmd, slot, replies, 0);
    assert(memory.take(0) =~= Seq::<u8>::empty());
    let data = memory.take(n);
    if n < body.len() {
        assert(data =~= body.take(n));
        lemma_cut_macro_parses(events, repeat_count, data);
    } else {
        let tail = data.skip(body.len() as int);
        assert(data =~= body + tail);
        macro_round_trip(events, repeat_count, tail);
    }
}

} // verus!
