//! Plain data carried through the engine: chats and messages.

use vstd::prelude::*;
use vstd::multiset::Multiset;

verus! {

/// Which flavour of chat a dialog is; the engine only tracks these two.
#[derive(Debug, Clone, Copy, PartialEq, Eq, Structural)]
pub enum ChatKind {
    Group,
    Channel,
}

/// Minimal information about a chat needed for monitoring.
pub struct ChatInfo {
    /// Stable string key combining the kind and the remote numeric id.
    pub peer_id: String,
    /// Chat title as reported by the remote side.
    pub title: String,
    pub kind: ChatKind,
    /// The remote platform's numeric id for the chat.
    pub tg_id: i64,
    /// Access hash for channels; basic groups have none.
    pub access_hash: Option<i64>,
}

/// One message of a chat's history.
pub struct MessageInfo {
    /// Message id, ascending within one chat but not globally unique.
    pub msg_id: i32,
    /// UNIX timestamp of the message.
    pub date: i32,
    pub text: String,
}

impl MessageInfo {
    /// Field-wise copy; message records are immutable values.
    pub fn duplicate(&self) -> (r: MessageInfo)
        ensures
            r == *self,
    {
        MessageInfo { msg_id: self.msg_id, date: self.date, text: self.text.clone() }
    }
}

/// One member of a chat, as the membership refresh reports it.
pub struct MemberInfo {
    /// The remote platform's numeric id of the user.
    pub user_id: i64,
    /// Display name; a degraded placeholder when detail fetches failed.
    pub name: String,
    pub username: Option<String>,
    pub bio: Option<String>,
}

impl MemberInfo {
    /// Field-wise copy; member records are replaced wholesale.
    pub fn duplicate(&self) -> (r: MemberInfo)
        ensures
            r == *self,
    {
        MemberInfo {
            user_id: self.user_id,
            name: self.name.clone(),
            username: match &self.username {
                Some(u) => Some(u.clone()),
                None => None,
            },
            bio: match &self.bio {
                Some(b) => Some(b.clone()),
                None => None,
            },
        }
    }
}

/// Messages in ascending (non-strict) id order.
pub open spec fn sorted_by_id(s: Seq<MessageInfo>) -> bool {
    forall|i: int, j: int| 0 <= i < j < s.len() ==> s[i].msg_id <= s[j].msg_id
}

/// Messages with pairwise distinct ids.
pub open spec fn distinct_ids(s: Seq<MessageInfo>) -> bool {
    forall|i: int, j: int| 0 <= i < j < s.len() ==> s[i].msg_id != s[j].msg_id
}

/// Messages in strictly increasing id order.
pub open spec fn strictly_ascending_ids(s: Seq<MessageInfo>) -> bool {
    forall|i: int, j: int| 0 <= i < j < s.len() ==> s[i].msg_id < s[j].msg_id
}

/// Some message of `s` has id `id`.
pub open spec fn has_id(s: Seq<MessageInfo>, id: int) -> bool {
    exists|t: int| 0 <= t < s.len() && (#[trigger] s[t]).msg_id == id
}

/// Whether some message of `v` has id `id`.
pub fn contains_id(v: &Vec<MessageInfo>, id: i32) -> (r: bool)
    ensures
        r == has_id(v@, id as int),
{
    let mut t: usize = 0;
    while t < v.len()
        invariant
            t <= v@.len(),
            forall|x: int| 0 <= x < t ==> (#[trigger] v@[x]).msg_id != id,
        decreases v@.len() - t,
    {
        if v[t].msg_id == id {
            return true;
        }
        t = t + 1;
    }
    false
}

/// Sort messages into ascending id order (selection sort), keeping
/// exactly the same records; records with pairwise distinct ids come
/// out in strictly increasing order.
pub fn sort_by_msg_id(input: Vec<MessageInfo>) -> (out: Vec<MessageInfo>)
    ensures
        out@.len() == input@.len(),
        sorted_by_id(out@),
        out@.to_multiset() == input@.to_multiset(),
        forall|m: MessageInfo| out@.contains(m) <==> input@.contains(m),
        distinct_ids(input@) ==> strictly_ascending_ids(out@),
{
    broadcast use vstd::seq_lib::group_to_multiset_ensures;

    let ghost orig = input@;
    let mut rest = input;
    let mut out: Vec<MessageInfo> = Vec::new();
    while rest.len() > 0
        invariant
            sorted_by_id(out@),
            forall|x: int, y: int|
                0 <= x < out@.len() && 0 <= y < rest@.len() ==> out@[x].msg_id <= rest@[y].msg_id,
            out@.len() + rest@.len() == orig.len(),
            out@.to_multiset().add(rest@.to_multiset()) == orig.to_multiset(),
        decreases rest@.len(),
    {
        let mut mi: usize = 0;
        let mut k: usize = 1;
        while k < rest.len()
            invariant
                0 < rest@.len(),
                mi < k,
                1 <= k <= rest@.len(),
                forall|t: int| 0 <= t < k ==> rest@[mi as int].msg_id <= rest@[t].msg_id,
            decreases rest@.len() - k,
        {
            if rest[k].msg_id < rest[mi].msg_id {
                mi = k;
            }
            k = k + 1;
        }
        let ghost pre_rest = rest@;
        let ghost pre_out = out@;
        let m = rest.remove(mi);
        out.push(m);
        proof {
            vstd::seq_lib::to_multiset_remove(pre_rest, mi as int);
            vstd::seq_lib::to_multiset_build(pre_out, m);
            pre_rest.to_multiset_ensures();
            assert(rest@ == pre_rest.remove(mi as int));
            assert(out@ == pre_out.push(m));
            assert(pre_rest.contains(m));
            assert(out@.to_multiset().add(rest@.to_multiset()) =~= orig.to_multiset());
        }
    }
    proof {
        assert(rest@.to_multiset() =~= Multiset::empty());
        assert(out@.to_multiset() =~= out@.to_multiset().add(rest@.to_multiset()));
        out@.to_multiset_ensures();
        orig.to_multiset_ensures();
        assert forall|m: MessageInfo| out@.contains(m) <==> orig.contains(m) by {
            assert(out@.to_multiset().count(m) == orig.to_multiset().count(m));
        }
        if distinct_ids(orig) {
            assert(orig.no_duplicates()) by {
                assert forall|i: int, j: int|
                    0 <= i < orig.len() && 0 <= j < orig.len() && i != j implies orig[i]
                    != orig[j] by {
                    assert(orig[i].msg_id != orig[j].msg_id);
                }
            }
            assert forall|i: int, j: int| 0 <= i < j < out@.len() implies out@[i].msg_id
                < out@[j].msg_id by {
                if out@[i] == out@[j] {
                    orig.lemma_multiset_has_no_duplicates();
                    out@.lemma_multiset_has_no_duplicates_conv();
                    assert(out@[i] != out@[j]);
                } else {
                    if out@[i].msg_id == out@[j].msg_id {
                        assert(out@.contains(out@[i]) && out@.contains(out@[j]));
                        assert(orig.contains(out@[i]) && orig.contains(out@[j]));
                        let x = choose|x: int| 0 <= x < orig.len() && orig[x] == out@[i];
                        let y = choose|y: int| 0 <= y < orig.len() && orig[y] == out@[j];
                        assert(orig[x].msg_id == orig[y].msg_id && x != y);
                        assert(false);
                    }
                }
            }
        }
    }
    out
}

} // verus!
