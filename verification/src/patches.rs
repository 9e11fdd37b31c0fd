//! Features of patched firmware: what a patch offers, and the animation engine.

use crate::bits::{le16, lemma_byte_masks, lemma_word_masks, sub_bytes, word};
use crate::error::KeyboardError;
use crate::exchange::{first, seen, send_all, send_one, sent, Answer, Reply, Step, StepView};
use crate::keyboard::KeyboardInterface;
use crate::macros::page_count;
use crate::protocol::{
    raw, requests, ChecksumType, DefId, Delivery, LedPos, Request, RequestView, StripIdx,
};
use crate::triggers::count_pages;
use vstd::prelude::*;

verus! {

/// Information about firmware patches applied to the keyboard.
#[derive(Debug, Clone, PartialEq, Eq)]
pub struct PatchInfo {
    pub version: u8,
    pub capabilities: u16,
    pub name: String,
}

impl PatchInfo {
    /// Whether colors can be streamed: capability bit 1.
    pub fn has_led_stream(&self) -> (r: bool)
        ensures
            r == (self.capabilities / 2 % 2 == 1),
    {
        proof {
            lemma_word_masks(self.capabilities);
        }
        self.capabilities & 0x02 != 0
    }

    /// Whether there is an animation engine: capability bit 6.
    pub fn has_anim_engine(&self) -> (r: bool)
        ensures
            r == (self.capabilities / 64 % 2 == 1),
    {
        proof {
            lemma_word_masks(self.capabilities);
        }
        self.capabilities & 0x40 != 0
    }
}

/// A [`PatchInfo`] with its name as characters.
pub struct PatchView {
    pub version: u8,
    pub capabilities: u16,
    pub name: Seq<char>,
}

impl View for PatchInfo {
    type V = PatchView;

    open spec fn view(&self) -> PatchView {
        PatchView { version: self.version, capabilities: self.capabilities, name: self.name@ }
    }
}

/// Where the first zero stands, or the length if there is none.
pub open spec fn first_zero(s: Seq<u8>) -> int
    decreases s.len(),
{
    if s.len() == 0 || s[0] == 0 {
        0
    } else {
        1 + first_zero(s.drop_first())
    }
}

/// The bytes of the name in a patch answer: up to eight from byte 6 on, up to a zero.
pub open spec fn name_bytes(d: Seq<u8>) -> Seq<u8> {
    let field = d.subrange(
        6,
        if d.len() < 14 {
            d.len() as int
        } else {
            14
        },
    );
    field.take(first_zero(field))
}

/// The version, the capabilities and the name bytes that a patch answer holds:
/// `[_, 0xCA, 0xFE, version, caps_lo, caps_hi, name...]`. Stock firmware has none.
pub open spec fn patch_in(d: Seq<u8>) -> Option<(u8, u16, Seq<u8>)> {
    if d.len() < 8 || d[1] != 0xCA || d[2] != 0xFE {
        None
    } else {
        Some((d[3], le16(d[4], d[5]), name_bytes(d)))
    }
}

/// The text that `String::from_utf8_lossy` makes of `bytes`.
pub uninterp spec fn lossy_text(bytes: Seq<u8>) -> Seq<char>;

/// Calls `String::from_utf8_lossy`: the text that the bytes encode, named
/// [`lossy_text`]. For valid UTF-8 it is the decoded text; what stands for bytes that
/// are none is not claimed.
#[verifier::external_body]
fn text_of(bytes: &[u8]) -> (r: String)
    ensures
        r@ == lossy_text(bytes@),
        vstd::utf8::valid_utf8(bytes@) ==> r@ == vstd::utf8::decode_utf8(bytes@),
{
    String::from_utf8_lossy(bytes).to_string()
}

/// What a patch answer tells, with the name still in bytes.
pub fn patch_fields(d: &[u8]) -> (r: Option<(u8, u16, Vec<u8>)>)
    ensures
        match r {
            None => patch_in(d@) is None,
            Some((version, capabilities, name)) => patch_in(d@) == Some(
                (version, capabilities, name@),
            ),
        },
{
    if d.len() < 8 || d[1] != 0xCA || d[2] != 0xFE {
        return None;
    }
    let end: usize = if d.len() < 14 {
        d.len()
    } else {
        14
    };
    let field: Vec<u8> = sub_bytes(d, 6, end);
    let mut len: usize = 0;
    assert(field@.skip(0) =~= field@);
    while len < field.len() && field[len] != 0
        invariant
            len <= field@.len(),
            first_zero(field@) == len + first_zero(field@.skip(len as int)),
        decreases field@.len() - len,
    {
        assert(field@.skip(len as int).drop_first() =~= field@.skip(len + 1));
        len += 1;
    }
    assert(first_zero(field@.skip(len as int)) == 0) by {
        if len < field@.len() {
            assert(field@.skip(len as int)[0] == field@[len as int]);
        }
    }
    let name: Vec<u8> = sub_bytes(field.as_slice(), 0, len);
    assert(name@ =~= name_bytes(d@));
    Some((d[3], word(d[4], d[5]), name))
}

/// What a patch answer tells.
pub open spec fn patch_told(d: Seq<u8>) -> Option<PatchView> {
    match patch_in(d) {
        None => None,
        Some((version, capabilities, name)) => Some(
            PatchView { version, capabilities, name: lossy_text(name) },
        ),
    }
}

/// What a patch answer tells.
pub fn parse_patch_info(d: &[u8]) -> (r: Option<PatchInfo>)
    ensures
        match r {
            None => patch_told(d@) is None,
            Some(p) => patch_told(d@) == Some(p@) && (vstd::utf8::valid_utf8(name_bytes(d@))
                ==> p.name@ == vstd::utf8::decode_utf8(name_bytes(d@))),
        },
{
    match patch_fields(d) {
        None => None,
        Some((version, capabilities, name)) => Some(
            PatchInfo { version, capabilities, name: text_of(name.as_slice()) },
        ),
    }
}

/// Status of a single animation definition slot.
#[derive(Debug, Clone, Copy, PartialEq, Eq, Structural)]
pub struct AnimDefStatus {
    pub id: DefId,
    pub num_kf: u8,
    pub flags: u8,
    pub priority: i8,
    pub key_count: u8,
    pub duration_ticks: u16,
}

impl AnimDefStatus {
    /// Whether the animation runs once: flag bit 0.
    pub fn is_one_shot(&self) -> (r: bool)
        ensures
            r == (self.flags % 2 == 1),
    {
        proof {
            lemma_byte_masks(self.flags);
        }
        self.flags & 0x01 != 0
    }

    /// Whether the animation cycles through colors: flag bit 2.
    pub fn is_rainbow(&self) -> (r: bool)
        ensures
            r == (self.flags / 4 % 2 == 1),
    {
        proof {
            lemma_byte_masks(self.flags);
        }
        self.flags & 0x04 != 0
    }
}

/// Status of the animation engine.
#[derive(Debug, Clone, PartialEq, Eq)]
pub struct AnimStatus {
    pub active_count: u8,
    pub frame_count: u32,
    pub overlay_active: bool,
    pub defs: Vec<AnimDefStatus>,
}

/// One definition slot as the firmware reports it.
#[derive(Debug, Clone, Copy, PartialEq, Eq, Structural)]
pub struct AnimSlot {
    pub id: u8,
    pub num_kf: u8,
    pub flags: u8,
    pub priority: i8,
    pub key_count: u8,
    pub duration_ticks: u16,
}

/// The animation engine's status as the firmware reports it.
#[derive(Debug, Clone, PartialEq, Eq)]
pub struct AnimReport {
    pub active_count: u8,
    pub frame_count: u32,
    pub overlay_active: bool,
    pub defs: Vec<AnimSlot>,
}

/// What a query to the animation engine brought.
pub enum AnimReply {
    Report(AnimReport),
    /// An answer that is none: the firmware has no animation engine.
    Invalid,
    Failed(KeyboardError),
}

/// The slots whose number the driver understands.
pub open spec fn known_slots(defs: Seq<AnimSlot>) -> Seq<AnimSlot>
    decreases defs.len(),
{
    if defs.len() == 0 {
        Seq::empty()
    } else if defs.last().id < 8 {
        known_slots(defs.drop_last()).push(defs.last())
    } else {
        known_slots(defs.drop_last())
    }
}

/// Whether a status is what the firmware reported for a slot.
pub open spec fn slot_matches(status: AnimDefStatus, slot: AnimSlot) -> bool {
    &&& status.id.number() == slot.id
    &&& status.num_kf == slot.num_kf
    &&& status.flags == slot.flags
    &&& status.priority == slot.priority
    &&& status.key_count == slot.key_count
    &&& status.duration_ticks == slot.duration_ticks
}

/// Whether statuses are what the firmware reported, slot by slot.
pub open spec fn slots_match(statuses: Seq<AnimDefStatus>, slots: Seq<AnimSlot>) -> bool {
    &&& statuses.len() == slots.len()
    &&& forall|i: int| 0 <= i < slots.len() ==> slot_matches(#[trigger] statuses[i], slots[i])
}

/// The first keyframes of a definition, at most eight.
pub open spec fn keyframe_count(n: nat) -> nat {
    if n < 8 {
        n
    } else {
        8
    }
}

/// The requests that define an animation. Behind the fourth keyframe a second request
/// carries the rest.
pub open spec fn anim_define_writes(
    def_id: DefId,
    flags: u8,
    priority: i8,
    duration_ticks: u16,
    keyframes: Seq<(u16, u16, u8)>,
) -> Seq<RequestView> {
    let num_kf = keyframe_count(keyframes.len());
    let define = RequestView::AnimDefine {
        def_id,
        num_kf: num_kf as u8,
        flags,
        priority,
        duration_ticks,
        keyframes,
    };
    if num_kf > 4 {
        seq![
            define,
            RequestView::AnimDefineExt {
                def_id,
                keyframes: keyframes.subrange(4, num_kf as int),
            },
        ]
    } else {
        seq![define]
    }
}

/// Keys that one request assigns to an animation.
pub const ANIM_KEYS_PER_CHUNK: usize = 29;

/// The keys of one assignment request.
pub open spec fn assigned_keys(keys: Seq<(LedPos, u8)>, chunk: int) -> Seq<(u8, u8)> {
    let start = chunk * ANIM_KEYS_PER_CHUNK;
    let count = if keys.len() - start < ANIM_KEYS_PER_CHUNK {
        keys.len() - start
    } else {
        ANIM_KEYS_PER_CHUNK as int
    };
    Seq::new(count as nat, |i: int| (keys[start + i].0.pos, keys[start + i].1))
}

/// The requests that assign keys to an animation.
pub open spec fn anim_assign_writes(def_id: DefId, keys: Seq<(LedPos, u8)>) -> Seq<RequestView> {
    Seq::new(
        page_count(keys.len(), ANIM_KEYS_PER_CHUNK as nat),
        |i: int| RequestView::AnimAssign { def_id, keys: assigned_keys(keys, i) },
    )
}

/// Every key is assigned, in order.
pub proof fn all_keys_are_assigned(def_id: DefId, keys: Seq<(LedPos, u8)>, i: int)
    requires
        0 <= i < keys.len(),
    ensures
        ({
            let c = i / ANIM_KEYS_PER_CHUNK as int;
            let k = i % ANIM_KEYS_PER_CHUNK as int;
            let writes = anim_assign_writes(def_id, keys);
            &&& 0 <= c < writes.len()
            &&& writes[c] matches RequestView::AnimAssign { keys: part, .. }
            &&& k < part.len()
            &&& part[k] == (keys[i].0.pos, keys[i].1)
        }),
{
}

/// The elements `start .. end` of a list of keyframes.
fn sub_keyframes(v: &[(u16, u16, u8)], start: usize, end: usize) -> (r: Vec<(u16, u16, u8)>)
    requires
        start <= end <= v@.len(),
    ensures
        r@ == v@.subrange(start as int, end as int),
{
    let mut out: Vec<(u16, u16, u8)> = Vec::new();
    let mut i: usize = start;
    while i < end
        invariant
            start <= i <= end <= v@.len(),
            out@ == v@.subrange(start as int, i as int),
        decreases end - i,
    {
        out.push(v[i]);
        assert(v@.subrange(start as int, i as int).push(v@[i as int]) =~= v@.subrange(
            start as int,
            i + 1,
        ));
        i += 1;
    }
    out
}

impl KeyboardInterface {
    /// Get the patch information of the keyboard; `None` on stock firmware.
    pub fn get_patch_info(&self, replies: &[Reply]) -> (r: Step<Option<PatchInfo>>)
        ensures
            seen(replies@).len() == 0 ==> r@ == StepView::<Option<PatchInfo>>::Ask(
                raw(
                    self.commands.get_patch_info,
                    Seq::empty(),
                    ChecksumType::Bit7,
                    Delivery::QueryRaw,
                ),
            ),
            seen(replies@).len() > 0 ==> match seen(replies@)[0] {
                Err(e) => r@ == StepView::<Option<PatchInfo>>::Done(Err(e)),
                Ok(d) => r matches Step::Done(Ok(found)) && match found {
                    None => patch_told(d) is None,
                    Some(p) => patch_told(d) == Some(p@),
                },
            },
    {
        match first(replies) {
            Answer::Open => {
                let data: Vec<u8> = Vec::new();
                assert(data@ =~= Seq::<u8>::empty());
                Step::Ask(
                    Request::frame(
                        self.commands.get_patch_info,
                        data,
                        ChecksumType::Bit7,
                        Delivery::QueryRaw,
                    ),
                )
            },
            Answer::Failed(e) => Step::Done(Err(e)),
            Answer::Data(d) => Step::Done(Ok(parse_patch_info(d))),
        }
    }

    /// Get the patch information of the dongle; `None` on stock firmware, or where the
    /// transport has no dongle.
    pub fn get_dongle_patch_info(
        &self,
        reply: Option<Result<Option<Vec<u8>>, KeyboardError>>,
    ) -> (r: Step<Option<PatchInfo>>)
        ensures
            match reply {
                None => r@ == StepView::<Option<PatchInfo>>::Ask(RequestView::DonglePatchInfo),
                Some(Err(e)) => r@ == StepView::<Option<PatchInfo>>::Done(Err(e@)),
                Some(Ok(None)) => r@ == StepView::<Option<PatchInfo>>::Done(Ok(None)),
                Some(Ok(Some(d))) => r matches Step::Done(Ok(found)) && match found {
                    None => patch_told(d@) is None,
                    Some(p) => patch_told(d@) == Some(p@),
                },
            },
    {
        match reply {
            None => Step::Ask(Request::DonglePatchInfo),
            Some(Err(e)) => Step::Done(Err(e)),
            Some(Ok(None)) => Step::Done(Ok(None)),
            Some(Ok(Some(d))) => Step::Done(Ok(parse_patch_info(d.as_slice()))),
        }
    }

    /// Define an animation. A keyframe is `(ticks, color, easing)`; more than eight are
    /// not played.
    pub fn anim_define(
        &self,
        def_id: DefId,
        flags: u8,
        priority: i8,
        duration_ticks: u16,
        keyframes: &[(u16, u16, u8)],
        replies: &[Reply],
    ) -> (r: Step<()>)
        ensures
            r@ == sent(
                seen(replies@),
                anim_define_writes(def_id, flags, priority, duration_ticks, keyframes@),
            ),
    {
        let n: usize = keyframes.len();
        let num_kf: u8 = if n < 8 {
            n as u8
        } else {
            8
        };
        let all: Vec<(u16, u16, u8)> = sub_keyframes(keyframes, 0, n);
        assert(all@ =~= keyframes@);
        let mut list: Vec<Request> = Vec::new();
        list.push(
            Request::AnimDefine { def_id, num_kf, flags, priority, duration_ticks, keyframes: all },
        );
        if num_kf > 4 {
            let rest: Vec<(u16, u16, u8)> = sub_keyframes(keyframes, 4, num_kf as usize);
            list.push(Request::AnimDefineExt { def_id, keyframes: rest });
        }
        assert(requests(list@) =~= anim_define_writes(
            def_id,
            flags,
            priority,
            duration_ticks,
            keyframes@,
        ));
        send_all(list, replies)
    }

    /// Assign keys to an animation, as `(grid position, phase offset)`.
    ///
    /// [`anim_query_keys`](Self::anim_query_keys) reads strip positions back; the two are
    /// not the same, since the firmware converts.
    pub fn anim_assign(&self, def_id: DefId, keys: &[(LedPos, u8)], replies: &[Reply]) -> (r: Step<()>)
        ensures
            r@ == sent(seen(replies@), anim_assign_writes(def_id, keys@)),
    {
        let n: usize = keys.len();
        let chunks: usize = count_pages(n, ANIM_KEYS_PER_CHUNK);
        let ghost all = anim_assign_writes(def_id, keys@);
        let mut list: Vec<Request> = Vec::new();
        let mut c: usize = 0;
        while c < chunks
            invariant
                n == keys@.len(),
                all == anim_assign_writes(def_id, keys@),
                chunks == page_count(keys@.len(), 29),
                c <= chunks,
                requests(list@) == all.take(c as int),
            decreases chunks - c,
        {
            let start: usize = c * ANIM_KEYS_PER_CHUNK;
            let end: usize = if n - start < ANIM_KEYS_PER_CHUNK {
                n
            } else {
                start + ANIM_KEYS_PER_CHUNK
            };
            let ghost part = assigned_keys(keys@, c as int);
            let mut chunk: Vec<(u8, u8)> = Vec::new();
            let mut i: usize = start;
            while i < end
                invariant
                    n == keys@.len(),
                    start == c * 29,
                    start <= i <= end <= n,
                    part == assigned_keys(keys@, c as int),
                    part.len() == end - start,
                    chunk@ == part.take(i - start),
                decreases end - i,
            {
                let key: (LedPos, u8) = keys[i];
                chunk.push((key.0.pos, key.1));
                assert(part.take(i + 1 - start) =~= part.take(i - start).push(part[i - start]));
                i += 1;
            }
            assert(part.take(i - start) =~= part);
            let ghost before = list@;
            list.push(Request::AnimAssign { def_id, keys: chunk });
            assert(requests(list@) =~= requests(before).push(list@.last()@));
            assert(all.take(c + 1) =~= all.take(c as int).push(all[c as int]));
            c += 1;
        }
        assert(all.take(c as int) =~= all);
        send_all(list, replies)
    }

    /// Cancel an animation and release its keys.
    pub fn anim_cancel(&self, def_id: DefId, replies: &[Reply]) -> (r: Step<()>)
        ensures
            r@ == sent(seen(replies@), seq![RequestView::AnimCancel { def_id }]),
    {
        send_one(Request::AnimCancel { def_id }, replies)
    }

    /// Clear all animations and the overlay.
    pub fn anim_clear(&self, replies: &[Reply]) -> (r: Step<()>)
        ensures
            r@ == sent(seen(replies@), seq![RequestView::AnimClear]),
    {
        send_one(Request::AnimClear, replies)
    }

    /// Get the animation engine's status; `None` if the firmware has none. A slot whose
    /// number is out of range is dropped, so that no wrong slot is addressed.
    pub fn anim_query(&self, reply: Option<AnimReply>) -> (r: Step<Option<AnimStatus>>)
        ensures
            match reply {
                None => r@ == StepView::<Option<AnimStatus>>::Ask(RequestView::AnimQuery),
                Some(AnimReply::Invalid) => r@ == StepView::<Option<AnimStatus>>::Done(Ok(None)),
                Some(AnimReply::Failed(e)) => r@ == StepView::<Option<AnimStatus>>::Done(
                    Err(e@),
                ),
                Some(AnimReply::Report(report)) => r matches Step::Done(Ok(Some(s)))
                    && s.active_count == report.active_count && s.frame_count
                    == report.frame_count && s.overlay_active == report.overlay_active
                    && slots_match(s.defs@, known_slots(report.defs@)),
            },
    {
        match reply {
            None => Step::Ask(Request::AnimQuery),
            Some(AnimReply::Invalid) => Step::Done(Ok(None)),
            Some(AnimReply::Failed(e)) => Step::Done(Err(e)),
            Some(AnimReply::Report(report)) => {
                let mut defs: Vec<AnimDefStatus> = Vec::new();
                let mut i: usize = 0;
                assert(report.defs@.take(0).len() == 0);
                while i < report.defs.len()
                    invariant
                        i <= report.defs@.len(),
                        slots_match(defs@, known_slots(report.defs@.take(i as int))),
                    decreases report.defs@.len() - i,
                {
                    let slot: AnimSlot = report.defs[i];
                    assert(report.defs@.take(i + 1).drop_last() =~= report.defs@.take(i as int));
                    if let Some(id) = DefId::from_u8(slot.id) {
                        defs.push(
                            AnimDefStatus {
                                id,
                                num_kf: slot.num_kf,
                                flags: slot.flags,
                                priority: slot.priority,
                                key_count: slot.key_count,
                                duration_ticks: slot.duration_ticks,
                            },
                        );
                    }
                    i += 1;
                }
                assert(report.defs@.take(i as int) =~= report.defs@);
                Step::Done(
                    Ok(
                        Some(
                            AnimStatus {
                                active_count: report.active_count,
                                frame_count: report.frame_count,
                                overlay_active: report.overlay_active,
                                defs,
                            },
                        ),
                    ),
                )
            },
        }
    }

    /// Get the keys of an animation, as `(strip position, phase offset)`. A query that
    /// fails counts as no keys.
    pub fn anim_query_keys(
        &self,
        def_id: DefId,
        reply: Option<Result<Vec<(u8, u8)>, KeyboardError>>,
    ) -> (r: Step<Vec<(StripIdx, u8)>>)
        ensures
            r@ == (match reply {
                None => StepView::Ask(RequestView::AnimQueryKeys { def_id }),
                Some(Err(_)) => StepView::Done(Ok(Seq::empty())),
                Some(Ok(keys)) => StepView::Done(
                    Ok(keys@.map_values(|k: (u8, u8)| (StripIdx { idx: k.0 }, k.1))),
                ),
            }),
    {
        match reply {
            None => Step::Ask(Request::AnimQueryKeys { def_id }),
            Some(Err(_)) => {
                let none: Vec<(StripIdx, u8)> = Vec::new();
                assert(none@ =~= Seq::<(StripIdx, u8)>::empty());
                Step::Done(Ok(none))
            },
            Some(Ok(keys)) => {
                let ghost all = keys@.map_values(|k: (u8, u8)| (StripIdx { idx: k.0 }, k.1));
                let mut out: Vec<(StripIdx, u8)> = Vec::new();
                let mut i: usize = 0;
                while i < keys.len()
                    invariant
                        i <= keys@.len(),
                        all == keys@.map_values(|k: (u8, u8)| (StripIdx { idx: k.0 }, k.1)),
                        out@ == all.take(i as int),
                    decreases keys@.len() - i,
                {
                    let k: (u8, u8) = keys[i];
                    out.push((StripIdx { idx: k.0 }, k.1));
                    assert(all.take(i + 1) =~= all.take(i as int).push(all[i as int]));
                    i += 1;
                }
                assert(all.take(i as int) =~= all);
                Step::Done(Ok(out))
            },
        }
    }
}

} // verus!
