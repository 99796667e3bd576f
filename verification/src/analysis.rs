//! The boundary to the content-analysis collaborator.
//!
//! The collaborator itself (prompt construction and answer parsing) is
//! external; the engine only fixes what crosses the boundary: an empty
//! category label falls back to a fixed default, an empty suggested
//! name falls back to the chat title, and the urgent ids it answers
//! with may only name messages it was shown.

use vstd::prelude::*;
use crate::model::{MessageInfo, contains_id, has_id};

verus! {

/// The category label actually persisted: an empty analysis answer is
/// replaced by the fixed default label.
pub open spec fn normalized_category(raw: Seq<char>) -> Seq<char> {
    if raw.len() == 0 {
        "Uncategorized"@
    } else {
        raw
    }
}

/// The suggested name actually persisted: an empty analysis answer is
/// replaced by the chat's current title.
pub open spec fn normalized_name(raw: Seq<char>, title: Seq<char>) -> Seq<char> {
    if raw.len() == 0 {
        title
    } else {
        raw
    }
}

/// Apply the boundary's default substitutions to an analysis answer.
pub fn normalize_analysis(category: String, suggested_name: String, chat_title: &String) -> (r: (
    String,
    String,
))
    ensures
        r.0@ == normalized_category(category@),
        r.1@ == normalized_name(suggested_name@, chat_title@),
{
    let cat = if category.as_str().is_empty() {
        "Uncategorized".to_owned()
    } else {
        category
    };
    let name = if suggested_name.as_str().is_empty() {
        chat_title.clone()
    } else {
        suggested_name
    };
    (cat, name)
}

/// Keep, in order, the urgent ids that name one of the given messages:
/// the analysis answer may only flag messages it was shown, so any id
/// outside the input batch is dropped.
pub fn filter_urgent_ids(ids: &Vec<i32>, messages: &Vec<MessageInfo>) -> (r: Vec<i32>)
    ensures
        forall|k: int|
            0 <= k < r@.len() ==> ids@.contains(#[trigger] r@[k]) && has_id(
                messages@,
                r@[k] as int,
            ),
        forall|k: int|
            0 <= k < ids@.len() && has_id(messages@, (#[trigger] ids@[k]) as int) ==> r@.contains(
                ids@[k],
            ),
{
    let mut out: Vec<i32> = Vec::new();
    let mut k: usize = 0;
    while k < ids.len()
        invariant
            k <= ids@.len(),
            forall|x: int|
                0 <= x < out@.len() ==> ids@.contains(#[trigger] out@[x]) && has_id(
                    messages@,
                    out@[x] as int,
                ),
            forall|x: int|
                0 <= x < k && has_id(messages@, (#[trigger] ids@[x]) as int) ==> out@.contains(
                    ids@[x],
                ),
        decreases ids@.len() - k,
    {
        let ghost pre = out@;
        if contains_id(messages, ids[k]) {
            out.push(ids[k]);
            proof {
                assert(ids@.contains(ids@[k as int]));
                assert forall|x: int|
                    0 <= x < k + 1 && has_id(
                        messages@,
                        (#[trigger] ids@[x]) as int,
                    ) implies out@.contains(ids@[x]) by {
                    if x < k {
                        let y = choose|y: int| 0 <= y < pre.len() && pre[y] == ids@[x];
                        assert(out@[y] == ids@[x]);
                    } else {
                        assert(out@.last() == ids@[x]);
                    }
                }
            }
        }
        k = k + 1;
    }
    out
}

} // verus!
