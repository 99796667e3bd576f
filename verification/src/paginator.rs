//! The history paginator.
//!
//! Given a chat and the highest message id already stored (the
//! checkpoint), the paginator retrieves every newer message in bounded
//! pages, walking backward from the newest message toward the
//! checkpoint. The remote requests themselves are performed by the
//! caller: the paginator hands out the next bounded request, absorbs
//! each response, and finally yields the accumulated batch sorted into
//! ascending id order.
//!
//! Every id it returns is strictly greater than the checkpoint and the
//! returned sequence is strictly increasing with no duplicates; a page
//! smaller than [`PAGE_SIZE`] ends the walk. An unknown-chat error
//! yields an empty result (the chat will be rediscovered on the next
//! dialog refresh); any other remote error ends the walk early with
//! whatever was accumulated — a partial result, not a failure.

use vstd::prelude::*;
use crate::model::{
    MessageInfo,
    contains_id,
    distinct_ids,
    has_id,
    sort_by_msg_id,
    strictly_ascending_ids,
};

verus! {

/// Number of items requested per history page.
pub const PAGE_SIZE: usize = 100;

/// One bounded request for a page of a chat's history: up to `limit`
/// items with ids strictly between `min_id` and `max_id`.
#[derive(Debug, Clone, Copy, PartialEq, Eq, Structural)]
pub struct PageRequest {
    /// Exclusive lower bound on message ids; 0 asks from the beginning.
    pub min_id: i32,
    /// Exclusive upper bound on message ids; 0 leaves the top open.
    pub max_id: i32,
    /// Maximum number of items in the page.
    pub limit: usize,
}

/// One item of a fetched history page.
pub enum PageItem {
    /// A well-formed message record.
    Message(MessageInfo),
    /// Any other item kind (service events and the like); skipped.
    Other,
}

/// What one history request came back with.
pub enum PageResponse {
    /// A page of items, in whatever order the remote sent them.
    Items(Vec<PageItem>),
    /// The remote cache reports no change: treated as an empty page.
    NotModified,
    /// The chat is unknown or invalid: benign absence, empty result.
    UnknownChat,
    /// Any other remote error: keep the partial batch accumulated so far.
    OtherError,
}

/// Whether a message joins the accumulated batch: its id must lie
/// strictly inside the current window and not repeat an absorbed id.
pub open spec fn accepts(acc: Seq<MessageInfo>, since: int, bound: int, m: MessageInfo) -> bool {
    &&& m.msg_id > since
    &&& bound == 0 || (m.msg_id as int) < bound
    &&& !has_id(acc, m.msg_id as int)
}

/// The batch after absorbing one page item.
pub open spec fn absorb_one(
    acc: Seq<MessageInfo>,
    since: int,
    bound: int,
    it: PageItem,
) -> Seq<MessageInfo> {
    match it {
        PageItem::Message(m) => if accepts(acc, since, bound, m) {
            acc.push(m)
        } else {
            acc
        },
        PageItem::Other => acc,
    }
}

/// The batch after absorbing a whole page, item by item.
pub open spec fn absorb(
    acc: Seq<MessageInfo>,
    since: int,
    bound: int,
    items: Seq<PageItem>,
) -> Seq<MessageInfo>
    decreases items.len(),
{
    if items.len() == 0 {
        acc
    } else {
        absorb_one(absorb(acc, since, bound, items.drop_last()), since, bound, items.last())
    }
}

/// A page item that is a message lying strictly inside the window.
pub open spec fn is_window_message(since: int, bound: int, it: PageItem) -> bool {
    it matches PageItem::Message(m) && m.msg_id > since && (bound == 0 || (m.msg_id as int)
        < bound)
}

/// The id a page item carries (0 for non-message items).
pub open spec fn item_id(it: PageItem) -> int {
    match it {
        PageItem::Message(m) => m.msg_id as int,
        PageItem::Other => 0,
    }
}

/// A page as an honest remote sends it while unseen history remains:
/// every item a message strictly inside the window, ids pairwise
/// distinct.
pub open spec fn fresh_page(since: int, bound: int, items: Seq<PageItem>) -> bool {
    &&& forall|t: int| 0 <= t < items.len() ==> is_window_message(since, bound, #[trigger] items[t])
    &&& forall|t1: int, t2: int|
        0 <= t1 < t2 < items.len() ==> item_id(#[trigger] items[t1]) != item_id(
            #[trigger] items[t2],
        )
}

/// Every absorbed message comes from the prior batch or from the page.
proof fn lemma_absorb_elems(acc: Seq<MessageInfo>, since: int, bound: int, items: Seq<PageItem>)
    ensures
        forall|t: int|
            0 <= t < absorb(acc, since, bound, items).len() ==> {
                let m = #[trigger] absorb(acc, since, bound, items)[t];
                acc.contains(m) || exists|u: int|
                    0 <= u < items.len() && #[trigger] items[u] == PageItem::Message(m)
            },
    decreases items.len(),
{
    if items.len() > 0 {
        lemma_absorb_elems(acc, since, bound, items.drop_last());
        let prev = absorb(acc, since, bound, items.drop_last());
        let res = absorb(acc, since, bound, items);
        assert forall|t: int| 0 <= t < res.len() implies acc.contains(#[trigger] res[t]) || exists|
            u: int,
        | 0 <= u < items.len() && #[trigger] items[u] == PageItem::Message(res[t]) by {
            let m = res[t];
            if t < prev.len() {
                assert(prev[t] == m);
                if !acc.contains(m) {
                    let u = choose|u: int|
                        0 <= u < items.drop_last().len() && #[trigger] items.drop_last()[u]
                            == PageItem::Message(m);
                    assert(items[u] == PageItem::Message(m));
                }
            } else {
                assert(items[items.len() - 1] == PageItem::Message(m));
            }
        }
    }
}

/// A fresh page is absorbed whole: nothing in it is filtered out.
proof fn lemma_absorb_fresh(acc: Seq<MessageInfo>, since: int, bound: int, items: Seq<PageItem>)
    requires
        fresh_page(since, bound, items),
        bound == 0 ==> acc.len() == 0,
        bound != 0 ==> forall|t: int| 0 <= t < acc.len() ==> (#[trigger] acc[t]).msg_id >= bound,
    ensures
        absorb(acc, since, bound, items).len() == acc.len() + items.len(),
    decreases items.len(),
{
    if items.len() > 0 {
        let sub = items.drop_last();
        assert(fresh_page(since, bound, sub)) by {
            assert(forall|t: int| 0 <= t < sub.len() ==> #[trigger] sub[t] == items[t]);
        }
        lemma_absorb_fresh(acc, since, bound, sub);
        lemma_absorb_elems(acc, since, bound, sub);
        let prev = absorb(acc, since, bound, sub);
        let last = items.last();
        assert(is_window_message(since, bound, last));
        let m = last->Message_0;
        assert(accepts(prev, since, bound, m)) by {
            if has_id(prev, m.msg_id as int) {
                let t = choose|t: int|
                    0 <= t < prev.len() && (#[trigger] prev[t]).msg_id == m.msg_id;
                let e = prev[t];
                if acc.contains(e) {
                    let x = choose|x: int| 0 <= x < acc.len() && acc[x] == e;
                    assert(acc[x].msg_id >= bound || bound == 0);
                    assert(false);
                } else {
                    let u = choose|u: int|
                        0 <= u < sub.len() && #[trigger] sub[u] == PageItem::Message(e);
                    assert(items[u] == PageItem::Message(e));
                    assert(item_id(items[u]) == item_id(items[items.len() - 1]));
                    assert(false);
                }
            }
        }
    }
}

/// Walks one chat's unseen history backward in bounded pages.
pub struct Paginator {
    last_seen: i32,
    upper: i32,
    got: Vec<MessageInfo>,
    pages_done: usize,
    active: bool,
}

impl Paginator {
    /// The checkpoint: ids at or below it are already stored.
    pub closed spec fn since(&self) -> int {
        self.last_seen as int
    }

    /// Current exclusive upper bound of the window (0 = unbounded).
    pub closed spec fn bound(&self) -> int {
        self.upper as int
    }

    /// The messages accumulated so far, in absorption order.
    pub closed spec fn msgs(&self) -> Seq<MessageInfo> {
        self.got@
    }

    /// How many requests have been answered.
    pub closed spec fn pages(&self) -> nat {
        self.pages_done as nat
    }

    /// Whether another page must be requested.
    pub closed spec fn in_progress(&self) -> bool {
        self.active
    }

    /// Internal consistency: ids sit above the checkpoint, repeat
    /// nowhere, and, while the walk is active, at or above the window's
    /// upper bound, which itself sits above the checkpoint.
    pub closed spec fn wf(&self) -> bool {
        &&& self.last_seen >= 0
        &&& self.upper >= 0
        &&& forall|t: int|
            0 <= t < self.got@.len() ==> (#[trigger] self.got@[t]).msg_id > self.last_seen
        &&& distinct_ids(self.got@)
        &&& self.active && self.upper == 0 ==> self.got@.len() == 0
        &&& self.active && self.upper != 0 ==> self.upper > self.last_seen && forall|t: int|
            0 <= t < self.got@.len() ==> (#[trigger] self.got@[t]).msg_id >= self.upper
    }

    /// Start a walk from the given checkpoint (0 = no stored messages:
    /// fetch from the beginning).
    pub fn new(last_seen_id: i32) -> (p: Paginator)
        requires
            last_seen_id >= 0,
        ensures
            p.wf(),
            p.since() == last_seen_id,
            p.bound() == 0,
            p.msgs() == Seq::<MessageInfo>::empty(),
            p.pages() == 0,
            p.in_progress(),
    {
        Paginator { last_seen: last_seen_id, upper: 0, got: Vec::new(), pages_done: 0, active: true }
    }

    /// Whether another page must be requested before finishing.
    pub fn is_in_progress(&self) -> (b: bool)
        ensures
            b == self.in_progress(),
    {
        self.active
    }

    /// The next bounded request: everything after the checkpoint and
    /// below the current upper bound, one page's worth.
    pub fn next_request(&self) -> (r: PageRequest)
        requires
            self.in_progress(),
        ensures
            r.min_id as int == self.since(),
            r.max_id as int == self.bound(),
            r.limit == PAGE_SIZE,
    {
        PageRequest { min_id: self.last_seen, max_id: self.upper, limit: PAGE_SIZE }
    }

    /// Absorb the answer to the last request.
    ///
    /// A page of items is filtered to in-window messages with unseen
    /// ids; a short page ends the walk, a full one moves the window's
    /// upper bound down to the smallest id seen. An unknown-chat error
    /// discards everything and ends the walk with an empty result; any
    /// other error ends it keeping the partial batch.
    pub fn on_response(&mut self, resp: PageResponse)
        requires
            old(self).wf(),
            old(self).in_progress(),
            old(self).pages() < usize::MAX,
        ensures
            final(self).wf(),
            final(self).since() == old(self).since(),
            final(self).pages() == old(self).pages() + 1,
            resp matches PageResponse::UnknownChat ==> !final(self).in_progress() && final(self).msgs() == Seq::<MessageInfo>::empty(),
            resp matches PageResponse::NotModified ==> !final(self).in_progress() && final(self).msgs() == old(self).msgs(),
            resp matches PageResponse::OtherError ==> !final(self).in_progress() && final(self).msgs() == old(self).msgs(),
            resp matches PageResponse::Items(v) ==> {
                &&& final(self).msgs() == absorb(
                    old(self).msgs(),
                    old(self).since(),
                    old(self).bound(),
                    v@,
                )
                &&& final(self).in_progress() <==> v@.len() >= PAGE_SIZE
                &&& v@.len() >= PAGE_SIZE ==> {
                    if final(self).msgs().len() == 0 {
                        final(self).bound() == 0
                    } else {
                        has_id(final(self).msgs(), final(self).bound()) && forall|t: int|
                            0 <= t < final(self).msgs().len() ==> (#[trigger] final(self).msgs()[t]).msg_id >= final(self).bound()
                    }
                }
                &&& fresh_page(old(self).since(), old(self).bound(), v@) ==> final(self).msgs().len() == old(self).msgs().len() + v@.len()
            },
    {
        self.pages_done = self.pages_done + 1;
        match resp {
            PageResponse::UnknownChat => {
                self.got = Vec::new();
                self.active = false;
            },
            PageResponse::NotModified => {
                self.active = false;
            },
            PageResponse::OtherError => {
                self.active = false;
            },
            PageResponse::Items(v) => {
                let ghost pre = self.got@;
                let ghost since0 = self.last_seen as int;
                let ghost bound0 = self.upper as int;
                let ghost pages0 = self.pages_done;
                let mut k: usize = 0;
                while k < v.len()
                    invariant
                        k <= v@.len(),
                        self.last_seen as int == since0,
                        self.upper as int == bound0,
                        self.pages_done == pages0,
                        self.active,
                        self.last_seen >= 0,
                        self.got@ == absorb(pre, since0, bound0, v@.take(k as int)),
                        forall|t: int|
                            0 <= t < self.got@.len() ==> (#[trigger] self.got@[t]).msg_id
                                > self.last_seen,
                        distinct_ids(self.got@),
                    decreases v@.len() - k,
                {
                    let ghost before = self.got@;
                    match &v[k] {
                        PageItem::Message(m) => {
                            if m.msg_id > self.last_seen && (self.upper == 0 || m.msg_id
                                < self.upper) && !contains_id(&self.got, m.msg_id) {
                                self.got.push(m.duplicate());
                            }
                        },
                        PageItem::Other => {},
                    }
                    proof {
                        assert(v@.take(k + 1).drop_last() =~= v@.take(k as int));
                        assert(v@.take(k + 1).last() == v@[k as int]);
                        assert(self.got@ == absorb_one(before, since0, bound0, v@[k as int]));
                    }
                    k = k + 1;
                }
                proof {
                    assert(v@.take(v@.len() as int) =~= v@);
                }
                if v.len() < PAGE_SIZE {
                    self.active = false;
                } else {
                    if self.got.len() == 0 {
                        self.upper = 0;
                    } else {
                        let ghost absorbed = self.got@;
                        let mut mn: i32 = self.got[0].msg_id;
                        let mut t: usize = 1;
                        while t < self.got.len()
                            invariant
                                0 < self.got@.len(),
                                1 <= t <= self.got@.len(),
                                self.got@ == absorbed,
                                self.last_seen as int == since0,
                                self.pages_done == pages0,
                                self.active,
                                self.last_seen >= 0,
                                has_id(self.got@, mn as int),
                                forall|x: int|
                                    0 <= x < t ==> (#[trigger] self.got@[x]).msg_id >= mn,
                            decreases self.got@.len() - t,
                        {
                            if self.got[t].msg_id < mn {
                                mn = self.got[t].msg_id;
                            }
                            t = t + 1;
                        }
                        self.upper = mn;
                    }
                }
                proof {
                    if fresh_page(since0, bound0, v@) {
                        lemma_absorb_fresh(pre, since0, bound0, v@);
                    }
                }
            },
        }
    }

    /// End the walk: the accumulated batch, sorted ascending by id.
    /// Ids are pairwise distinct and all above the checkpoint, so the
    /// result is strictly increasing.
    pub fn finish(self) -> (out: Vec<MessageInfo>)
        requires
            self.wf(),
        ensures
            out@.to_multiset() == self.msgs().to_multiset(),
            strictly_ascending_ids(out@),
            forall|t: int| 0 <= t < out@.len() ==> (#[trigger] out@[t]).msg_id > self.since(),
    {
        let ghost source = self.got@;
        let ghost since0 = self.last_seen as int;
        let out = sort_by_msg_id(self.got);
        proof {
            assert forall|t: int| 0 <= t < out@.len() implies (#[trigger] out@[t]).msg_id
                > since0 by {
                assert(out@.contains(out@[t]));
                let x = choose|x: int| 0 <= x < source.len() && source[x] == out@[t];
            }
        }
        out
    }
}

/// Termination bound of the walk: while it is still in progress after
/// `pages` answered requests over a history that keeps pages full and
/// fresh, the batch holds a full page per request; a history of at most
/// `total` new messages therefore answers at most `total / PAGE_SIZE`
/// requests with full pages, and one further request ends the walk.
pub proof fn lemma_pages_bounded(p: &Paginator, total: int)
    requires
        p.in_progress(),
        PAGE_SIZE * p.pages() <= p.msgs().len(),
        p.msgs().len() <= total,
    ensures
        p.pages() <= total / (PAGE_SIZE as int),
{
    vstd::arithmetic::div_mod::lemma_div_multiples_vanish(p.pages() as int, PAGE_SIZE as int);
    vstd::arithmetic::div_mod::lemma_div_is_ordered(
        PAGE_SIZE * p.pages(),
        total,
        PAGE_SIZE as int,
    );
}

} // verus!
