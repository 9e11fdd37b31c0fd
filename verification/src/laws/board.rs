//! A keyboard that stores what it is told and answers from it, against which the laws run
//! the operations.

use crate::error::ErrorView;
use crate::exchange::{
    block, joined, pages_make_up_the_store, reply_view, seen, sent, tells_pages,
    walk_asks_in_order, PartView, Reply, ReplyView, Step, StepView,
};
use crate::protocol::{CommandTable, KeymatrixLayer, Profile, RequestView};
use vstd::prelude::*;

verus! {

/// What a keyboard stores.
pub struct Board {
    /// The trigger tables, by sub-command.
    pub tables: spec_fn(u8) -> Seq<u8>,
    /// The keymatrix layers, by profile and layer.
    pub layers: spec_fn(u8, u8) -> Seq<u8>,
    /// The Fn tables, by OS variant and profile.
    pub fn_tables: spec_fn(u8, u8) -> Seq<u8>,
}

/// The number of a profile on the wire.
pub open spec fn profile_number(p: Profile) -> u8 {
    match p {
        Profile::First => 0,
        Profile::Second => 1,
        Profile::Third => 2,
        Profile::Fourth => 3,
    }
}

/// The number of a keymatrix layer on the wire.
pub open spec fn layer_number(l: KeymatrixLayer) -> u8 {
    match l {
        KeymatrixLayer::Layer0 => 0,
        KeymatrixLayer::Layer1 => 1,
        KeymatrixLayer::Layer2 => 2,
        KeymatrixLayer::Layer3 => 3,
    }
}

/// A page of 64 bytes.
pub open spec fn page_of(store: Seq<u8>, page: u8) -> Seq<u8> {
    store.subrange(64 * page, 64 * page + 64)
}

/// A store with some bytes written over it.
pub open spec fn overwritten(store: Seq<u8>, at: int, bytes: Seq<u8>) -> Seq<u8> {
    Seq::new(
        store.len(),
        |i: int|
            if at <= i < at + bytes.len() {
                bytes[i - at]
            } else {
                store[i]
            },
    )
}

impl Board {
    /// What the keyboard answers to a request for a page.
    pub open spec fn answer(self, c: CommandTable, q: RequestView) -> ReplyView {
        match q {
            RequestView::Raw(f) => if f.cmd == c.get_multi_magnetism && f.data.len() == 3
                && f.data[1] == 1 {
                Ok(page_of((self.tables)(f.data[0]), f.data[2]))
            } else if f.cmd == c.get_keymatrix && f.data.len() == 4 && f.data[1] == 0xFF {
                Ok(page_of((self.layers)(f.data[0], f.data[3]), f.data[2]))
            } else if f.cmd == c.get_fn && f.data.len() == 4 && f.data[2] == 0xFF {
                Ok(page_of((self.fn_tables)(f.data[0], f.data[1]), f.data[3]))
            } else {
                Ok(Seq::empty())
            },
            _ => Ok(Seq::empty()),
        }
    }

    /// What the keyboard stores once it has performed a write. A write of one key's entry
    /// goes behind the entries of the keys before it, a page of 56 bytes behind the pages
    /// before it. The packed Dynamic Keystroke bytes are read under another sub-command
    /// than they are written.
    pub open spec fn after(self, c: CommandTable, q: RequestView) -> Board {
        match q {
            RequestView::Raw(f) => if f.cmd == c.set_multi_magnetism && f.data.len() >= 7 {
                let table = if f.data[0] == c.magnetism.dks_trigger_modes_set {
                    c.magnetism.dks_modes
                } else {
                    f.data[0]
                };
                let body = f.data.skip(7);
                let at = if f.data[1] == 0 {
                    f.data[2] * body.len()
                } else {
                    f.data[2] * 56
                };
                Board {
                    tables: |s: u8|
                        if s == table {
                            overwritten((self.tables)(s), at, body)
                        } else {
                            (self.tables)(s)
                        },
                    ..self
                }
            } else {
                self
            },
            RequestView::KeyMatrix { profile, key_index, layer, config, .. } => Board {
                layers: |p: u8, l: u8|
                    if p == profile_number(profile) && l == layer_number(layer) {
                        overwritten((self.layers)(p, l), 4 * key_index, config)
                    } else {
                        (self.layers)(p, l)
                    },
                ..self
            },
            RequestView::FnKey { sys, profile, key_index, config } => Board {
                fn_tables: |s: u8, p: u8|
                    if s == sys && p == profile_number(profile) {
                        overwritten((self.fn_tables)(s, p), 4 * key_index, config)
                    } else {
                        (self.fn_tables)(s, p)
                    },
                ..self
            },
            _ => self,
        }
    }

    /// What the keyboard stores once it has performed a list of writes.
    pub open spec fn after_all(self, c: CommandTable, list: Seq<RequestView>) -> Board
        decreases list.len(),
    {
        if list.len() == 0 {
            self
        } else {
            self.after_all(c, list.drop_last()).after(c, list.last())
        }
    }

    /// Whether every store is as long as it is ever read.
    pub open spec fn full(self) -> bool {
        &&& forall|s: u8| (#[trigger] (self.tables)(s)).len() >= 512
        &&& forall|p: u8, l: u8| (#[trigger] (self.layers)(p, l)).len() >= 512
        &&& forall|s: u8, p: u8| (#[trigger] (self.fn_tables)(s, p)).len() >= 512
    }
}

/// Whether the commands that read stores are different.
pub open spec fn tells_reads_apart(c: CommandTable) -> bool {
    &&& c.get_multi_magnetism != c.get_keymatrix
    &&& c.get_multi_magnetism != c.get_fn
    &&& c.get_keymatrix != c.get_fn
}

/// Whether every reply is the keyboard's answer to the request that the step before it
/// asks for.
pub open spec fn answered<T: View>(
    board: Board,
    c: CommandTable,
    steps: Seq<Step<T>>,
    replies: Seq<Reply>,
) -> bool {
    &&& steps.len() == replies.len() + 1
    &&& forall|m: int|
        0 <= m < replies.len() ==> ((#[trigger] steps[m])@ matches StepView::Ask(q) && reply_view(
            replies[m],
        ) == board.answer(c, q))
}

/// A block over replies that all went through asks for its pages in order.
pub proof fn lemma_block_asks(list: Seq<RequestView>, replies: Seq<ReplyView>, at: nat)
    requires
        at <= replies.len(),
        forall|i: int| at <= i < replies.len() ==> (#[trigger] replies[i]) is Ok,
    ensures
        replies.len() - at < list.len() ==> block(list, replies, at) == PartView::<Seq<u8>>::Ask(
            list[replies.len() - at],
        ),
        replies.len() - at >= list.len() ==> block(list, replies, at) == (PartView::Found {
            value: joined(replies, at as int, (at + list.len()) as int),
            next: at + list.len(),
        }),
{
    walk_asks_in_order(list, replies, at);
}

/// The requests that the steps of an operation ask for, one by one.
pub open spec fn asked_for<T: View>(steps: Seq<Step<T>>) -> Seq<RequestView> {
    Seq::new(
        (steps.len() - 1) as nat,
        |m: int|
            match steps[m]@ {
                StepView::Ask(q) => q,
                StepView::Done(_) => RequestView::AnimClear,
            },
    )
}

/// Whether every step before the last asks for something and gets it.
pub open spec fn goes_through<T: View>(steps: Seq<Step<T>>, replies: Seq<Reply>) -> bool {
    &&& steps.len() == replies.len() + 1
    &&& forall|m: int|
        0 <= m < replies.len() ==> (#[trigger] steps[m]) is Ask && replies[m] is Ok
    &&& steps.last() is Done
}

/// An operation that only sends, and goes through, has sent its list and succeeded.
pub proof fn lemma_sent_run(list: Seq<RequestView>, steps: Seq<Step<()>>, replies: Seq<Reply>)
    requires
        goes_through(steps, replies),
        forall|m: int|
            0 <= m < steps.len() ==> (#[trigger] steps[m])@ == sent(seen(replies.take(m)), list),
    ensures
        steps.last()@ == StepView::<()>::Done(Ok(())),
        asked_for(steps) == list,
{
    let all = seen(replies);
    assert forall|i: int| 0 <= i < all.len() implies (#[trigger] all[i]) is Ok by {
        assert(steps[i] is Ask);
        assert(all[i] == reply_view(replies[i]));
    }
    assert forall|m: int| 0 <= m < steps.len() implies {
        &&& m < list.len() ==> (#[trigger] steps[m])@ == StepView::<()>::Ask(list[m])
        &&& m >= list.len() ==> steps[m]@ == StepView::<()>::Done(Ok(()))
    } by {
        let r = seen(replies.take(m));
        lemma_seen_take(replies, m);
        assert forall|i: int| 0 <= i < r.len() implies (#[trigger] r[i]) is Ok by {
            assert(r[i] == all[i]);
        }
        walk_asks_in_order(list, r, 0);
    }
    let last = steps.len() - 1;
    assert(steps[last]@ is Done);
    if last > list.len() {
        assert(steps[list.len() as int] is Ask);
        assert(steps[list.len() as int]@ is Done);
    }
    assert forall|m: int| 0 <= m < list.len() implies #[trigger] asked_for(steps)[m] == list[m] by {
        assert(steps[m]@ == StepView::<()>::Ask(list[m]));
    }
    assert(asked_for(steps) =~= list);
}

/// The replies before one, as contracts see them.
pub proof fn lemma_seen_take(replies: Seq<Reply>, m: int)
    requires
        0 <= m <= replies.len(),
    ensures
        seen(replies.take(m)) == seen(replies).take(m),
{
    assert(seen(replies.take(m)) =~= seen(replies).take(m));
}

/// Pages that were answered from a store are the start of that store.
pub proof fn lemma_told(
    list: Seq<RequestView>,
    replies: Seq<ReplyView>,
    at: nat,
    store: Seq<u8>,
)
    requires
        at + list.len() <= replies.len(),
        list.len() <= 8,
        store.len() >= 512,
        forall|i: int|
            0 <= i < list.len() ==> #[trigger] replies[at + i] == Ok::<Seq<u8>, ErrorView>(
                page_of(store, i as u8),
            ),
    ensures
        block(list, replies, at) == (PartView::Found {
            value: store.take(64 * list.len() as int),
            next: at + list.len(),
        }),
{
    assert(tells_pages(replies, at, list.len(), store, 64)) by {
        assert forall|j: int| at <= j < at + list.len() implies #[trigger] replies[j] == Ok::<
            Seq<u8>,
            ErrorView,
        >(store.subrange((j - at) * 64, (j - at + 1) * 64)) by {
            assert(replies[at + (j - at)] == Ok::<Seq<u8>, ErrorView>(
                page_of(store, (j - at) as u8),
            ));
        }
    }
    pages_make_up_the_store(list, replies, at, store, 64);
}

/// An operation that asks for a list of requests in order, as long as nothing fails, and is
/// done behind them.
pub open spec fn asks_for<V>(op: spec_fn(Seq<ReplyView>) -> StepView<V>, flat: Seq<RequestView>) -> bool {
    forall|r: Seq<ReplyView>|
        (forall|i: int| 0 <= i < r.len() ==> (#[trigger] r[i]) is Ok) ==> {
            &&& r.len() < flat.len() ==> #[trigger] op(r) == StepView::<V>::Ask(
                flat[r.len() as int],
            )
            &&& r.len() >= flat.len() ==> op(r) is Done
        }
}

/// A run of such an operation that is done has asked for the whole list, and has all the
/// answers.
pub proof fn lemma_run<T: View>(
    op: spec_fn(Seq<ReplyView>) -> StepView<T::V>,
    flat: Seq<RequestView>,
    board: Board,
    c: CommandTable,
    steps: Seq<Step<T>>,
    replies: Seq<Reply>,
)
    requires
        asks_for(op, flat),
        answered(board, c, steps, replies),
        forall|m: int|
            0 <= m < steps.len() ==> (#[trigger] steps[m])@ == op(seen(replies.take(m))),
        steps.last()@ is Done,
    ensures
        replies.len() == flat.len(),
        forall|m: int|
            0 <= m < flat.len() ==> #[trigger] seen(replies)[m] == board.answer(c, flat[m]),
        steps.last()@ == op(seen(replies)),
{
    let all = seen(replies);
    assert forall|i: int| 0 <= i < all.len() implies (#[trigger] all[i]) is Ok by {
        assert(steps[i]@ is Ask);
        assert(all[i] == reply_view(replies[i]));
    }
    assert forall|m: int| 0 <= m < steps.len() implies {
        &&& m < flat.len() ==> (#[trigger] steps[m])@ == StepView::<T::V>::Ask(flat[m])
        &&& m >= flat.len() ==> steps[m]@ is Done
    } by {
        let r = seen(replies.take(m));
        lemma_seen_take(replies, m);
        assert forall|i: int| 0 <= i < r.len() implies (#[trigger] r[i]) is Ok by {
            assert(r[i] == all[i]);
        }
        assert(steps[m]@ == op(r));
    }
    let last = steps.len() - 1;
    assert(steps[last]@ is Done);
    if last > flat.len() {
        assert(steps[flat.len() as int]@ is Done);
        assert(steps[flat.len() as int]@ is Ask);
    }
    assert(replies.take(last) =~= replies);
    assert forall|m: int| 0 <= m < flat.len() implies #[trigger] all[m] == board.answer(
        c,
        flat[m],
    ) by {
        assert(steps[m]@ == StepView::<T::V>::Ask(flat[m]));
        assert(all[m] == reply_view(replies[m]));
    }
}

} // verus!
