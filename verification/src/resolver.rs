//! The duplicate-category resolver.
//!
//! Once per cycle the engine recomputes, from the full current set of
//! `(category, peer_id)` assignments, which chats share a category
//! label. Labels compare case-insensitively; a label with two or more
//! distinct member chats marks every member as a duplicate, and every
//! other chat is marked clean. A peer may appear several times under
//! one label (the fresh per-cycle list is merged with what storage
//! already holds); repeated appearances never count as company.

use vstd::prelude::*;
use crate::text::{bytes_equal, fold_key, fold_key_of};

verus! {

/// Entry `i` of the assignment has a rival: another entry with the same
/// case-folded category label but a different peer.
pub open spec fn entry_has_rival_spec(ps: Seq<(String, String)>, i: int) -> bool {
    exists|j: int|
        0 <= j < ps.len() && #[trigger] fold_key(ps[j].0@) == fold_key(ps[i].0@) && ps[j].1@
            != ps[i].1@
}

/// The peer with id `p` is a duplicate under the assignment `ps`: some
/// entry assigns it a category label that, compared case-insensitively,
/// some other entry assigns to a different peer.
pub open spec fn is_duplicate(ps: Seq<(String, String)>, p: Seq<char>) -> bool {
    exists|i: int| 0 <= i < ps.len() && #[trigger] ps[i].1@ == p && entry_has_rival_spec(ps, i)
}

/// `p` occurs among the views of `vs`.
pub open spec fn contains_str(vs: Seq<String>, p: Seq<char>) -> bool {
    exists|k: int| 0 <= k < vs.len() && #[trigger] vs[k]@ == p
}

/// Whether some entry shares entry `i`'s case-folded label with a
/// different peer; `keys` caches the case-folded labels.
fn entry_has_rival(pairs: &Vec<(String, String)>, keys: &Vec<Vec<u8>>, i: usize) -> (r: bool)
    requires
        keys@.len() == pairs@.len(),
        forall|t: int| 0 <= t < keys@.len() ==> #[trigger] keys@[t]@ == fold_key(pairs@[t].0@),
        i < pairs@.len(),
    ensures
        r == entry_has_rival_spec(pairs@, i as int),
{
    let mut j: usize = 0;
    while j < pairs.len()
        invariant
            keys@.len() == pairs@.len(),
            forall|t: int| 0 <= t < keys@.len() ==> #[trigger] keys@[t]@ == fold_key(pairs@[t].0@),
            i < pairs@.len(),
            j <= pairs@.len(),
            forall|t: int|
                0 <= t < j ==> !(#[trigger] fold_key(pairs@[t].0@) == fold_key(pairs@[i as int].0@)
                    && pairs@[t].1@ != pairs@[i as int].1@),
        decreases pairs@.len() - j,
    {
        if bytes_equal(&keys[j], &keys[i]) && !(pairs[j].1 == pairs[i].1) {
            return true;
        }
        j = j + 1;
    }
    false
}

/// Whether `s` occurs in `vs`.
pub fn contains_string(vs: &Vec<String>, s: &String) -> (r: bool)
    ensures
        r == contains_str(vs@, s@),
{
    let mut k: usize = 0;
    while k < vs.len()
        invariant
            k <= vs@.len(),
            forall|t: int| 0 <= t < k ==> #[trigger] vs@[t]@ != s@,
        decreases vs@.len() - k,
    {
        if vs[k] == *s {
            return true;
        }
        k = k + 1;
    }
    false
}

/// Compute the set of duplicate-topic peers of a category assignment.
///
/// The result lists, once each, exactly the peer ids that share a
/// case-folded category label with a different peer; every other peer's
/// duplicate flag is to be cleared. The assignment may contain repeated
/// and overlapping entries (fresh per-cycle pairs merged with persisted
/// ones); repetition of one peer under one label does not make it a
/// duplicate.
pub fn duplicate_peers(pairs: &Vec<(String, String)>) -> (dups: Vec<String>)
    ensures
        forall|k: int| 0 <= k < dups@.len() ==> is_duplicate(pairs@, #[trigger] dups@[k]@),
        forall|p: Seq<char>| is_duplicate(pairs@, p) ==> contains_str(dups@, p),
        forall|k1: int, k2: int| 0 <= k1 < k2 < dups@.len() ==> dups@[k1]@ != dups@[k2]@,
{
    let mut keys: Vec<Vec<u8>> = Vec::new();
    let mut i: usize = 0;
    while i < pairs.len()
        invariant
            i <= pairs@.len(),
            keys@.len() == i,
            forall|t: int| 0 <= t < i ==> #[trigger] keys@[t]@ == fold_key(pairs@[t].0@),
        decreases pairs@.len() - i,
    {
        keys.push(fold_key_of(pairs[i].0.as_str()));
        i = i + 1;
    }
    let mut dups: Vec<String> = Vec::new();
    let mut i: usize = 0;
    while i < pairs.len()
        invariant
            keys@.len() == pairs@.len(),
            forall|t: int| 0 <= t < keys@.len() ==> #[trigger] keys@[t]@ == fold_key(pairs@[t].0@),
            i <= pairs@.len(),
            forall|k: int| 0 <= k < dups@.len() ==> is_duplicate(pairs@, #[trigger] dups@[k]@),
            forall|t: int|
                0 <= t < i && entry_has_rival_spec(pairs@, t) ==> contains_str(
                    dups@,
                    #[trigger] pairs@[t].1@,
                ),
            forall|k1: int, k2: int| 0 <= k1 < k2 < dups@.len() ==> dups@[k1]@ != dups@[k2]@,
        decreases pairs@.len() - i,
    {
        if entry_has_rival(pairs, &keys, i) {
            if !contains_string(&dups, &pairs[i].1) {
                let ghost pre = dups@;
                dups.push(pairs[i].1.clone());
                proof {
                    assert forall|p: Seq<char>| contains_str(pre, p) implies contains_str(
                        dups@,
                        p,
                    ) by {
                        let k = choose|k: int| 0 <= k < pre.len() && pre[k]@ == p;
                        assert(dups@[k]@ == p);
                    }
                    assert(contains_str(dups@, pairs@[i as int].1@)) by {
                        assert(dups@[pre.len() as int]@ == pairs@[i as int].1@);
                    }
                    assert(is_duplicate(pairs@, pairs@[i as int].1@)) by {
                        assert(pairs@[i as int].1@ == pairs@[i as int].1@ && entry_has_rival_spec(
                            pairs@,
                            i as int,
                        ));
                    }
                }
            } else {
                proof {
                    assert(contains_str(dups@, pairs@[i as int].1@));
                }
            }
        }
        i = i + 1;
    }
    dups
}

/// Recomputation is deterministic up to order: any two flag sets that
/// satisfy the resolver's contract for the same assignment agree on
/// every peer, so rerunning the resolver over unchanged categories
/// yields an identical flag assignment.
pub proof fn lemma_resolution_idempotent(
    ps: Seq<(String, String)>,
    dups1: Seq<String>,
    dups2: Seq<String>,
)
    requires
        forall|k: int| 0 <= k < dups1.len() ==> is_duplicate(ps, #[trigger] dups1[k]@),
        forall|p: Seq<char>| is_duplicate(ps, p) ==> contains_str(dups1, p),
        forall|k: int| 0 <= k < dups2.len() ==> is_duplicate(ps, #[trigger] dups2[k]@),
        forall|p: Seq<char>| is_duplicate(ps, p) ==> contains_str(dups2, p),
    ensures
        forall|p: Seq<char>| contains_str(dups1, p) <==> contains_str(dups2, p),
{
    assert forall|p: Seq<char>| contains_str(dups1, p) implies contains_str(dups2, p) by {
        let k = choose|k: int| 0 <= k < dups1.len() && dups1[k]@ == p;
        assert(is_duplicate(ps, p));
    }
    assert forall|p: Seq<char>| contains_str(dups2, p) implies contains_str(dups1, p) by {
        let k = choose|k: int| 0 <= k < dups2.len() && dups2[k]@ == p;
        assert(is_duplicate(ps, p));
    }
}

} // verus!
