//! Exchanges with the keyboard, one request at a time.
//!
//! An operation is a function of the replies that are in: it names the next request, or
//! it is done. Whoever drives it performs the request, appends the reply and asks again.

use crate::error::{ErrorView, KeyboardError};
use crate::protocol::{requests, Request, RequestView};
use vstd::prelude::*;

verus! {

/// What a request brought: bytes (none for a request that is only sent), or the
/// transport's error.
pub type Reply = Result<Vec<u8>, KeyboardError>;

/// A [`Reply`] as contracts see it.
pub type ReplyView = Result<Seq<u8>, ErrorView>;

/// A reply as contracts see it.
pub open spec fn reply_view(r: Reply) -> ReplyView {
    match r {
        Ok(d) => Ok(d@),
        Err(e) => Err(e@),
    }
}

/// The replies that are in, as contracts see them.
pub open spec fn seen(replies: Seq<Reply>) -> Seq<ReplyView> {
    replies.map_values(|r: Reply| reply_view(r))
}

/// Where an operation stands.
#[derive(Debug, PartialEq, Eq)]
pub enum Step<T> {
    /// This request is next.
    Ask(Request),
    /// There is nothing left to ask.
    Done(Result<T, KeyboardError>),
}

/// A [`Step`] as contracts see it.
pub enum StepView<V> {
    Ask(RequestView),
    Done(Result<V, ErrorView>),
}

impl<T: View> View for Step<T> {
    type V = StepView<T::V>;

    open spec fn view(&self) -> StepView<T::V> {
        match *self {
            Step::Ask(r) => StepView::Ask(r@),
            Step::Done(Ok(t)) => StepView::Done(Ok(t@)),
            Step::Done(Err(e)) => StepView::Done(Err(e@)),
        }
    }
}

/// How far the replies carry through a list of requests.
pub enum Walk {
    /// This request of the list is next.
    Pending(Request),
    /// A request failed; the replies behind it start at `next`.
    Failed { error: KeyboardError, next: usize },
    /// Every request went through; the replies behind them start at `next`.
    Complete { next: usize },
}

/// A [`Walk`] as contracts see it.
pub enum WalkView {
    Pending(RequestView),
    Failed { error: ErrorView, next: nat },
    Complete { next: nat },
}

impl View for Walk {
    type V = WalkView;

    open spec fn view(&self) -> WalkView {
        match *self {
            Walk::Pending(r) => WalkView::Pending(r@),
            Walk::Failed { error, next } => WalkView::Failed { error: error@, next: next as nat },
            Walk::Complete { next } => WalkView::Complete { next: next as nat },
        }
    }
}

/// How far the replies from `at` on carry through `list`: to the first request without
/// a reply, to the first that failed, or to the end.
pub open spec fn walked(list: Seq<RequestView>, replies: Seq<ReplyView>, at: nat) -> WalkView
    decreases list.len(),
{
    if list.len() == 0 {
        WalkView::Complete { next: at }
    } else if at >= replies.len() {
        WalkView::Pending(list[0])
    } else {
        match replies[at as int] {
            Err(e) => WalkView::Failed { error: e, next: at + 1 },
            Ok(_) => walked(list.drop_first(), replies, at + 1),
        }
    }
}

/// How far the replies from `at` on carry through `list`.
pub fn walk(list: Vec<Request>, replies: &[Reply], at: usize) -> (r: Walk)
    requires
        at <= replies@.len(),
    ensures
        r@ == walked(requests(list@), seen(replies@), at as nat),
        r matches Walk::Failed { next, .. } ==> at < next <= replies@.len(),
        r matches Walk::Complete { next } ==> next == at + list@.len() && next <= replies@.len(),
        r matches Walk::Complete { next } ==> forall|i: int|
            at <= i < next ==> (#[trigger] replies@[i]) is Ok,
{
    let mut left: Vec<Request> = list;
    let mut i: usize = 0;
    let n: usize = left.len();
    let m: usize = replies.len();
    let ghost whole = requests(list@);
    let ghost all = seen(replies@);
    assert(whole.skip(0) =~= whole);
    while i < n
        invariant
            i <= n == left@.len() == whole.len(),
            m == replies@.len(),
            left@ == list@,
            whole == requests(list@),
            all == seen(replies@),
            at + i <= m,
            walked(whole, all, at as nat) == walked(whole.skip(i as int), all, (at + i) as nat),
            forall|k: int| at <= k < at + i ==> (#[trigger] replies@[k]) is Ok,
        decreases n - i,
    {
        assert(whole.skip(i as int).drop_first() =~= whole.skip(i + 1));
        assert(whole.skip(i as int)[0] == left@[i as int]@);
        if i >= m - at {
            let request: Request = left.swap_remove(i);
            return Walk::Pending(request);
        }
        assert(all[at + i] == reply_view(replies@[at + i]));
        if let Err(e) = &replies[at + i] {
            return Walk::Failed { error: e.copy(), next: at + i + 1 };
        }
        i += 1;
    }
    Walk::Complete { next: at + i }
}

/// The data of the replies `from .. to`, joined.
pub open spec fn joined(replies: Seq<ReplyView>, from: int, to: int) -> Seq<u8>
    decreases to - from,
{
    if from >= to {
        Seq::empty()
    } else {
        joined(replies, from, to - 1) + (match replies[to - 1] {
            Ok(d) => d,
            Err(_) => Seq::empty(),
        })
    }
}

/// The data of the replies `from .. to`, joined.
pub fn join(replies: &[Reply], from: usize, to: usize) -> (r: Vec<u8>)
    requires
        from <= to <= replies@.len(),
    ensures
        r@ == joined(seen(replies@), from as int, to as int),
{
    let mut out: Vec<u8> = Vec::new();
    let mut i: usize = from;
    while i < to
        invariant
            from <= i <= to <= replies@.len(),
            out@ == joined(seen(replies@), from as int, i as int),
        decreases to - i,
    {
        assert(seen(replies@)[i as int] == reply_view(replies@[i as int]));
        if let Ok(d) = &replies[i] {
            out.extend_from_slice(d.as_slice());
        }
        i += 1;
    }
    out
}

/// One request, and what its reply comes to.
pub open spec fn asked<V>(
    replies: Seq<ReplyView>,
    request: RequestView,
    decoded: spec_fn(Seq<u8>) -> Result<V, ErrorView>,
) -> StepView<V> {
    if replies.len() == 0 {
        StepView::Ask(request)
    } else {
        match replies[0] {
            Err(e) => StepView::Done(Err(e)),
            Ok(d) => StepView::Done(decoded(d)),
        }
    }
}

/// A list of requests whose replies say nothing but that they went through. The first
/// that fails ends it.
pub open spec fn sent(replies: Seq<ReplyView>, list: Seq<RequestView>) -> StepView<()> {
    match walked(list, replies, 0) {
        WalkView::Pending(r) => StepView::Ask(r),
        WalkView::Failed { error, .. } => StepView::Done(Err(error)),
        WalkView::Complete { .. } => StepView::Done(Ok(())),
    }
}

/// A part of a longer operation: what it has come to, and where the replies behind it
/// start.
pub enum Part<T> {
    /// This request is next.
    Ask(Request),
    /// It failed.
    Failed { error: KeyboardError, next: usize },
    /// It is through.
    Found { value: T, next: usize },
}

/// A [`Part`] as contracts see it.
pub enum PartView<V> {
    Ask(RequestView),
    Failed { error: ErrorView, next: nat },
    Found { value: V, next: nat },
}

impl<T: View> View for Part<T> {
    type V = PartView<T::V>;

    open spec fn view(&self) -> PartView<T::V> {
        match *self {
            Part::Ask(r) => PartView::Ask(r@),
            Part::Failed { error, next } => PartView::Failed { error: error@, next: next as nat },
            Part::Found { value, next } => PartView::Found { value: value@, next: next as nat },
        }
    }
}

impl<T> Part<T> {
    /// The replies behind the part start within those that are in, and not before `at`.
    pub open spec fn within(self, at: int, len: int) -> bool {
        match self {
            Part::Ask(_) => true,
            Part::Failed { next, .. } => at <= next <= len,
            Part::Found { next, .. } => at <= next <= len,
        }
    }
}

impl<T: View> Part<T> {
    /// The part as a whole operation.
    pub fn into_step(self) -> (r: Step<T>)
        ensures
            r@ == whole(self@),
    {
        match self {
            Part::Ask(request) => Step::Ask(request),
            Part::Failed { error, .. } => Step::Done(Err(error)),
            Part::Found { value, .. } => Step::Done(Ok(value)),
        }
    }
}

/// A part as a whole operation.
pub open spec fn whole<V>(part: PartView<V>) -> StepView<V> {
    match part {
        PartView::Ask(r) => StepView::Ask(r),
        PartView::Failed { error, .. } => StepView::Done(Err(error)),
        PartView::Found { value, .. } => StepView::Done(Ok(value)),
    }
}

/// A list of pages from the reply `at` on: their joined bytes, or the first failure.
pub open spec fn block(list: Seq<RequestView>, replies: Seq<ReplyView>, at: nat) -> PartView<
    Seq<u8>,
> {
    match walked(list, replies, at) {
        WalkView::Pending(r) => PartView::Ask(r),
        WalkView::Failed { error, next } => PartView::Failed { error, next },
        WalkView::Complete { next } => PartView::Found {
            value: joined(replies, at as int, next as int),
            next,
        },
    }
}

/// What the bytes of a part come to.
pub open spec fn decoded<U, V>(part: PartView<U>, f: spec_fn(U) -> Result<V, ErrorView>) -> PartView<
    V,
> {
    match part {
        PartView::Ask(r) => PartView::Ask(r),
        PartView::Failed { error, next } => PartView::Failed { error, next },
        PartView::Found { value, next } => match f(value) {
            Ok(v) => PartView::Found { value: v, next },
            Err(error) => PartView::Failed { error, next },
        },
    }
}

/// Read a list of pages from the reply `at` on.
pub fn read_block(list: Vec<Request>, replies: &[Reply], at: usize) -> (r: Part<Vec<u8>>)
    requires
        at <= replies@.len(),
    ensures
        r@ == block(requests(list@), seen(replies@), at as nat),
        r.within(at as int, replies@.len() as int),
{
    match walk(list, replies, at) {
        Walk::Pending(request) => Part::Ask(request),
        Walk::Failed { error, next } => Part::Failed { error, next },
        Walk::Complete { next } => Part::Found { value: join(replies, at, next), next },
    }
}

/// Requests that are only sent, from the reply `at` on.
pub open spec fn sent_from(list: Seq<RequestView>, replies: Seq<ReplyView>, at: nat) -> PartView<
    (),
> {
    match walked(list, replies, at) {
        WalkView::Pending(r) => PartView::Ask(r),
        WalkView::Failed { error, next } => PartView::Failed { error, next },
        WalkView::Complete { next } => PartView::Found { value: (), next },
    }
}

/// Send requests, from the reply `at` on.
pub fn send_from(list: Vec<Request>, replies: &[Reply], at: usize) -> (r: Part<()>)
    requires
        at <= replies@.len(),
    ensures
        r@ == sent_from(requests(list@), seen(replies@), at as nat),
        r.within(at as int, replies@.len() as int),
{
    match walk(list, replies, at) {
        Walk::Pending(request) => Part::Ask(request),
        Walk::Failed { error, next } => Part::Failed { error, next },
        Walk::Complete { next } => Part::Found { value: (), next },
    }
}

/// Send a list of requests.
pub fn send_all(list: Vec<Request>, replies: &[Reply]) -> (r: Step<()>)
    ensures
        r@ == sent(seen(replies@), requests(list@)),
{
    match walk(list, replies, 0) {
        Walk::Pending(request) => Step::Ask(request),
        Walk::Failed { error, .. } => Step::Done(Err(error)),
        Walk::Complete { .. } => Step::Done(Ok(())),
    }
}

/// Send one request.
pub fn send_one(request: Request, replies: &[Reply]) -> (r: Step<()>)
    ensures
        r@ == sent(seen(replies@), seq![request@]),
{
    let mut list: Vec<Request> = Vec::new();
    list.push(request);
    assert(requests(list@) =~= seq![request@]);
    send_all(list, replies)
}

/// The outcome of a single query so far.
pub enum Answer<'a> {
    /// The reply is not in.
    Open,
    /// It failed.
    Failed(KeyboardError),
    /// It brought these bytes.
    Data(&'a [u8]),
}

/// The first reply.
pub fn first<'a>(replies: &'a [Reply]) -> (r: Answer<'a>)
    ensures
        match r {
            Answer::Open => seen(replies@).len() == 0,
            Answer::Failed(e) => seen(replies@).len() > 0 && seen(replies@)[0] == Err::<
                Seq<u8>,
                ErrorView,
            >(e@),
            Answer::Data(d) => seen(replies@).len() > 0 && seen(replies@)[0] == Ok::<
                Seq<u8>,
                ErrorView,
            >(d@),
        },
{
    if replies.len() == 0 {
        return Answer::Open;
    }
    assert(seen(replies@)[0] == reply_view(replies@[0]));
    match &replies[0] {
        Ok(d) => Answer::Data(d.as_slice()),
        Err(e) => Answer::Failed(e.copy()),
    }
}

/// Once the replies to every request are in and none failed, the walk is complete; it
/// never asks for a request twice, nor for one outside the list.
pub proof fn walk_asks_in_order(list: Seq<RequestView>, replies: Seq<ReplyView>, at: nat)
    requires
        at <= replies.len(),
        forall|i: int| at <= i < replies.len() ==> (#[trigger] replies[i]) is Ok,
    ensures
        replies.len() - at < list.len() ==> walked(list, replies, at) == WalkView::Pending(
            list[replies.len() - at],
        ),
        replies.len() - at >= list.len() ==> walked(list, replies, at) == (WalkView::Complete {
            next: at + list.len(),
        }),
    decreases list.len(),
{
    if list.len() > 0 && at < replies.len() {
        assert(replies[at as int] is Ok);
        walk_asks_in_order(list.drop_first(), replies, at + 1);
    }
}

/// A failed request ends an operation that only sends: nothing is asked behind it.
pub proof fn failure_ends_sending(list: Seq<RequestView>, replies: Seq<ReplyView>, i: int)
    requires
        0 <= i < replies.len(),
        i < list.len(),
        replies[i] is Err,
        forall|k: int| 0 <= k < i ==> (#[trigger] replies[k]) is Ok,
    ensures
        sent(replies, list) == StepView::<()>::Done(Err(replies[i]->Err_0)),
{
    lemma_walk_stops(list, replies, 0, i);
}

/// A walk stops at the first failure.
proof fn lemma_walk_stops(list: Seq<RequestView>, replies: Seq<ReplyView>, at: nat, i: int)
    requires
        at <= i < replies.len(),
        i - at < list.len(),
        replies[i] is Err,
        forall|k: int| at <= k < i ==> (#[trigger] replies[k]) is Ok,
    ensures
        walked(list, replies, at) == (WalkView::Failed {
            error: replies[i]->Err_0,
            next: (i + 1) as nat,
        }),
    decreases i - at,
{
    if at < i {
        assert(replies[at as int] is Ok);
        lemma_walk_stops(list.drop_first(), replies, at + 1, i);
    }
}

/// Whether the replies from `at` on are the first `count` pages of a store.
pub open spec fn tells_pages(
    replies: Seq<ReplyView>,
    at: nat,
    count: nat,
    store: Seq<u8>,
    size: int,
) -> bool {
    &&& at + count <= replies.len()
    &&& forall|j: int|
        at <= j < at + count ==> #[trigger] replies[j] == Ok::<Seq<u8>, ErrorView>(
            store.subrange((j - at) * size, (j - at + 1) * size),
        )
}

/// A store that is asked for page by page is read whole.
pub proof fn pages_make_up_the_store(
    list: Seq<RequestView>,
    replies: Seq<ReplyView>,
    at: nat,
    store: Seq<u8>,
    size: int,
)
    requires
        size > 0,
        list.len() * size <= store.len(),
        tells_pages(replies, at, list.len(), store, size),
    ensures
        block(list, replies, at) == (PartView::Found {
            value: store.take(list.len() * size),
            next: at + list.len(),
        }),
{
    lemma_walks_through(list, replies, at);
    lemma_joins_pages(replies, at, list.len(), store, size);
}

/// Requests that are all answered are walked through.
proof fn lemma_walks_through(list: Seq<RequestView>, replies: Seq<ReplyView>, at: nat)
    requires
        at + list.len() <= replies.len(),
        forall|j: int| at <= j < at + list.len() ==> (#[trigger] replies[j]) is Ok,
    ensures
        walked(list, replies, at) == (WalkView::Complete { next: at + list.len() }),
    decreases list.len(),
{
    if list.len() > 0 {
        assert(replies[at as int] is Ok);
        lemma_walks_through(list.drop_first(), replies, at + 1);
    }
}

/// Pages joined are the start of the store.
proof fn lemma_joins_pages(
    replies: Seq<ReplyView>,
    at: nat,
    count: nat,
    store: Seq<u8>,
    size: int,
)
    requires
        size > 0,
        count * size <= store.len(),
        tells_pages(replies, at, count, store, size),
    ensures
        joined(replies, at as int, (at + count) as int) == store.take(count * size),
    decreases count,
{
    if count > 0 {
        let m = (count - 1) as nat;
        assert(m * size + size == count * size) by (nonlinear_arith)
            requires
                m == count - 1,
        ;
        assert(0 <= m * size) by (nonlinear_arith)
            requires
                size > 0,
        ;
        lemma_joins_pages(replies, at, m, store, size);
        let page = store.subrange(m * size, count * size);
        assert(replies[(at + m) as int] == Ok::<Seq<u8>, ErrorView>(page));
        assert(store.take(m * size) + page =~= store.take(count * size));
    } else {
        assert(0 * size == 0) by (nonlinear_arith);
        assert(store.take(0) =~= Seq::<u8>::empty());
    }
}

/// Whether a part over `n` replies, the last of which it has not gone beyond, asks or ends
/// there.
pub open spec fn fresh<V>(part: PartView<V>, n: nat) -> bool {
    match part {
        PartView::Ask(_) => true,
        PartView::Failed { next, .. } => next == n,
        PartView::Found { next, .. } => next == n,
    }
}

/// Whether a part that comes to `before` over `n` replies may come to `after` with one
/// more: what is through stays, and what asks for something ends with that reply or asks
/// again.
pub open spec fn grows<V>(before: PartView<V>, after: PartView<V>, n: nat) -> bool {
    match before {
        PartView::Ask(_) => fresh(after, n + 1),
        PartView::Failed { next, .. } => after == before && next <= n,
        PartView::Found { next, .. } => after == before && next <= n,
    }
}

/// One more reply carries a block further, or leaves it as it is if it was through.
pub proof fn blocks_grow(list: Seq<RequestView>, replies: Seq<ReplyView>, more: ReplyView, at: nat)
    requires
        at <= replies.len(),
    ensures
        grows(block(list, replies, at), block(list, replies.push(more), at), replies.len()),
{
    lemma_walks_grow(list, replies, more, at);
    if let WalkView::Complete { next } = walked(list, replies, at) {
        lemma_joined_stays(replies, more, at as int, next as int);
    }
}

/// A block asks for its first page where the replies end.
pub proof fn blocks_start_fresh(list: Seq<RequestView>, replies: Seq<ReplyView>)
    ensures
        fresh(block(list, replies, replies.len()), replies.len()),
        list.len() > 0 ==> block(list, replies, replies.len()) is Ask,
{
}

/// One more reply carries a walk further, or leaves it as it is if it was through.
proof fn lemma_walks_grow(
    list: Seq<RequestView>,
    replies: Seq<ReplyView>,
    more: ReplyView,
    at: nat,
)
    requires
        at <= replies.len(),
    ensures
        ({
            let after = walked(list, replies.push(more), at);
            match walked(list, replies, at) {
                WalkView::Pending(_) => match after {
                    WalkView::Pending(_) => true,
                    WalkView::Failed { next, .. } => next == replies.len() + 1,
                    WalkView::Complete { next } => next == replies.len() + 1,
                },
                WalkView::Failed { error, next } => after == (WalkView::Failed { error, next })
                    && next <= replies.len(),
                WalkView::Complete { next } => after == (WalkView::Complete { next }) && next
                    <= replies.len(),
            }
        }),
    decreases list.len(),
{
    if list.len() > 0 {
        let all = replies.push(more);
        if at < replies.len() {
            assert(all[at as int] == replies[at as int]);
            lemma_walks_grow(list.drop_first(), replies, more, at + 1);
        } else {
            assert(all[at as int] == more);
            reveal_with_fuel(walked, 2);
        }
    }
}

/// Replies behind a range do not change what it joins to.
proof fn lemma_joined_stays(replies: Seq<ReplyView>, more: ReplyView, from: int, to: int)
    requires
        0 <= from,
        to <= replies.len(),
    ensures
        joined(replies.push(more), from, to) == joined(replies, from, to),
    decreases to - from,
{
    if from < to {
        lemma_joined_stays(replies, more, from, to - 1);
        assert(replies.push(more)[to - 1] == replies[to - 1]);
    }
}

} // verus!
