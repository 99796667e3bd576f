//! An in-memory store with the semantics the engine relies on.
//!
//! The engine persists chats, messages and members through a storage
//! collaborator with idempotent upserts and point queries. This store
//! implements that interface over plain vectors: chats are keyed by
//! peer id, messages by `(chat_peer, msg_id)`, members by
//! `(chat_peer, user_id)`; repeated inserts of an existing key are
//! no-ops or wholesale replacements, exactly as the contracts state.

use vstd::prelude::*;
use crate::model::{
    ChatInfo,
    ChatKind,
    MemberInfo,
    MessageInfo,
    distinct_ids,
    sort_by_msg_id,
    strictly_ascending_ids,
};
use crate::resolver::{contains_str, contains_string};

verus! {

/// A stored chat: identity and metadata plus the analysis fields.
pub struct ChatRecord {
    /// Stable key; never changes once stored.
    pub peer_id: String,
    pub title: String,
    pub kind: ChatKind,
    pub tg_id: i64,
    pub access_hash: Option<i64>,
    /// Last successfully assigned category, if any.
    pub category: Option<String>,
    /// Last suggested name, if any.
    pub suggested_name: Option<String>,
    /// Recomputed from scratch by the resolver every cycle.
    pub duplicate: bool,
}

impl ChatRecord {
    /// Field-wise copy.
    pub fn duplicate_record(&self) -> (r: ChatRecord)
        ensures
            r == *self,
    {
        ChatRecord {
            peer_id: self.peer_id.clone(),
            title: self.title.clone(),
            kind: self.kind,
            tg_id: self.tg_id,
            access_hash: self.access_hash,
            category: match &self.category {
                Some(c) => Some(c.clone()),
                None => None,
            },
            suggested_name: match &self.suggested_name {
                Some(s) => Some(s.clone()),
                None => None,
            },
            duplicate: self.duplicate,
        }
    }
}

/// A stored message of one chat.
pub struct MessageRow {
    pub chat_peer: String,
    pub msg: MessageInfo,
    /// Set (never cleared) by an analysis pass.
    pub urgent: bool,
}

/// A stored member of one chat.
pub struct MemberRow {
    pub chat_peer: String,
    pub member: MemberInfo,
}

/// Chat keys (peer ids) are unique.
pub open spec fn distinct_chat_keys(s: Seq<ChatRecord>) -> bool {
    forall|i: int, j: int| 0 <= i < j < s.len() ==> s[i].peer_id@ != s[j].peer_id@
}

/// Message keys `(chat_peer, msg_id)` are unique.
pub open spec fn distinct_msg_keys(s: Seq<MessageRow>) -> bool {
    forall|i: int, j: int|
        0 <= i < j < s.len() ==> !(s[i].chat_peer@ == s[j].chat_peer@ && s[i].msg.msg_id
            == s[j].msg.msg_id)
}

/// Member keys `(chat_peer, user_id)` are unique.
pub open spec fn distinct_member_keys(s: Seq<MemberRow>) -> bool {
    forall|i: int, j: int|
        0 <= i < j < s.len() ==> !(s[i].chat_peer@ == s[j].chat_peer@ && s[i].member.user_id
            == s[j].member.user_id)
}

/// Some stored chat has this peer id.
pub open spec fn has_chat(s: Seq<ChatRecord>, peer: Seq<char>) -> bool {
    exists|t: int| 0 <= t < s.len() && (#[trigger] s[t]).peer_id@ == peer
}

/// Some stored message row has this key.
pub open spec fn has_msg(s: Seq<MessageRow>, peer: Seq<char>, id: int) -> bool {
    exists|t: int|
        0 <= t < s.len() && (#[trigger] s[t]).chat_peer@ == peer && s[t].msg.msg_id == id
}

/// Some stored member row has this key.
pub open spec fn has_member(s: Seq<MemberRow>, peer: Seq<char>, user_id: int) -> bool {
    exists|t: int|
        0 <= t < s.len() && (#[trigger] s[t]).chat_peer@ == peer && s[t].member.user_id == user_id
}

/// The chat record a fresh dialog upsert creates: metadata from the
/// dialog, analysis fields empty.
pub open spec fn fresh_chat_record(c: ChatInfo) -> ChatRecord {
    ChatRecord {
        peer_id: c.peer_id,
        title: c.title,
        kind: c.kind,
        tg_id: c.tg_id,
        access_hash: c.access_hash,
        category: None,
        suggested_name: None,
        duplicate: false,
    }
}

/// The record after a dialog refresh of an already-stored chat: title
/// and access hash follow the dialog, everything else (in particular
/// the analysis fields) is preserved.
pub open spec fn refreshed_chat_record(r: ChatRecord, c: ChatInfo) -> ChatRecord {
    ChatRecord { title: c.title, access_hash: c.access_hash, ..r }
}

/// The in-memory store.
pub struct Store {
    chats: Vec<ChatRecord>,
    messages: Vec<MessageRow>,
    members: Vec<MemberRow>,
}

impl Store {
    /// The stored chats, in insertion order.
    pub closed spec fn chats(&self) -> Seq<ChatRecord> {
        self.chats@
    }

    /// The stored message rows, in insertion order.
    pub closed spec fn messages(&self) -> Seq<MessageRow> {
        self.messages@
    }

    /// The stored member rows, in insertion order.
    pub closed spec fn members(&self) -> Seq<MemberRow> {
        self.members@
    }

    /// Key uniqueness across all three tables.
    pub open spec fn wf(&self) -> bool {
        &&& distinct_chat_keys(self.chats())
        &&& distinct_msg_keys(self.messages())
        &&& distinct_member_keys(self.members())
    }

    /// An empty store.
    pub fn new() -> (s: Store)
        ensures
            s.wf(),
            s.chats() == Seq::<ChatRecord>::empty(),
            s.messages() == Seq::<MessageRow>::empty(),
            s.members() == Seq::<MemberRow>::empty(),
    {
        Store { chats: Vec::new(), messages: Vec::new(), members: Vec::new() }
    }

    /// Insert or refresh a chat's metadata, never touching the
    /// analysis fields of a chat already stored.
    pub fn upsert_chat(&mut self, chat: &ChatInfo)
        requires
            old(self).wf(),
        ensures
            final(self).wf(),
            final(self).messages() == old(self).messages(),
            final(self).members() == old(self).members(),
            !has_chat(old(self).chats(), chat.peer_id@)
                ==> final(self).chats() == old(self).chats().push(fresh_chat_record(*chat)),
            has_chat(old(self).chats(), chat.peer_id@) ==> {
                &&& final(self).chats().len() == old(self).chats().len()
                &&& forall|t: int|
                    0 <= t < old(self).chats().len() && (#[trigger] old(self).chats()[t]).peer_id@
                        == chat.peer_id@ ==> final(self).chats()[t] == refreshed_chat_record(
                        old(self).chats()[t],
                        *chat,
                    )
                &&& forall|t: int|
                    0 <= t < old(self).chats().len() && (#[trigger] old(self).chats()[t]).peer_id@
                        != chat.peer_id@ ==> final(self).chats()[t] == old(self).chats()[t]
            },
    {
        let ghost chats0 = self.chats@;
        let ghost msgs0 = self.messages@;
        let ghost membs0 = self.members@;
        let mut t: usize = 0;
        while t < self.chats.len()
            invariant
                chats0 == old(self).chats@,
                msgs0 == old(self).messages@,
                membs0 == old(self).members@,
                distinct_chat_keys(chats0),
                distinct_msg_keys(msgs0),
                distinct_member_keys(membs0),
                self.chats@ == chats0,
                self.messages@ == msgs0,
                self.members@ == membs0,
                t <= chats0.len(),
                forall|x: int| 0 <= x < t ==> (#[trigger] chats0[x]).peer_id@ != chat.peer_id@,
            decreases chats0.len() - t,
        {
            if self.chats[t].peer_id == chat.peer_id {
                let peer = self.chats[t].peer_id.clone();
                let kind = self.chats[t].kind;
                let tg_id = self.chats[t].tg_id;
                let category = match &self.chats[t].category {
                    Some(c) => Some(c.clone()),
                    None => None,
                };
                let suggested_name = match &self.chats[t].suggested_name {
                    Some(s) => Some(s.clone()),
                    None => None,
                };
                let duplicate = self.chats[t].duplicate;
                self.chats[t] = ChatRecord {
                    peer_id: peer,
                    title: chat.title.clone(),
                    kind,
                    tg_id,
                    access_hash: chat.access_hash,
                    category,
                    suggested_name,
                    duplicate,
                };
                proof {
                    assert(self.chats@[t as int] == refreshed_chat_record(
                        chats0[t as int],
                        *chat,
                    ));
                    assert(has_chat(chats0, chat.peer_id@));
                }
                return ;
            }
            t = t + 1;
        }
        self.chats.push(
            ChatRecord {
                peer_id: chat.peer_id.clone(),
                title: chat.title.clone(),
                kind: chat.kind,
                tg_id: chat.tg_id,
                access_hash: chat.access_hash,
                category: None,
                suggested_name: None,
                duplicate: false,
            },
        );
        proof {
            assert(self.chats@.last() == fresh_chat_record(*chat));
            assert(self.chats@ =~= chats0.push(fresh_chat_record(*chat)));
        }
    }

    /// Insert or wholesale-replace one member of a chat.
    pub fn upsert_member(&mut self, chat_peer: &String, member: &MemberInfo)
        requires
            old(self).wf(),
        ensures
            final(self).wf(),
            final(self).chats() == old(self).chats(),
            final(self).messages() == old(self).messages(),
            !has_member(old(self).members(), chat_peer@, member.user_id as int)
                ==> final(self).members() == old(self).members().push(
                MemberRow { chat_peer: *chat_peer, member: *member },
            ),
            has_member(old(self).members(), chat_peer@, member.user_id as int) ==> {
                &&& final(self).members().len() == old(self).members().len()
                &&& forall|t: int|
                    0 <= t < old(self).members().len() && (#[trigger] old(self).members()[t]).chat_peer@
                        == chat_peer@ && old(self).members()[t].member.user_id == member.user_id
                        ==> final(self).members()[t] == (MemberRow {
                        chat_peer: old(self).members()[t].chat_peer,
                        member: *member,
                    })
                &&& forall|t: int|
                    0 <= t < old(self).members().len() && !((#[trigger] old(self).members()[t]).chat_peer@
                        == chat_peer@ && old(self).members()[t].member.user_id == member.user_id)
                        ==> final(self).members()[t] == old(self).members()[t]
            },
    {
        let ghost chats0 = self.chats@;
        let ghost msgs0 = self.messages@;
        let ghost membs0 = self.members@;
        let mut t: usize = 0;
        while t < self.members.len()
            invariant
                chats0 == old(self).chats@,
                msgs0 == old(self).messages@,
                membs0 == old(self).members@,
                distinct_chat_keys(chats0),
                distinct_msg_keys(msgs0),
                distinct_member_keys(membs0),
                self.chats@ == chats0,
                self.messages@ == msgs0,
                self.members@ == membs0,
                t <= membs0.len(),
                forall|x: int|
                    0 <= x < t ==> !((#[trigger] membs0[x]).chat_peer@ == chat_peer@
                        && membs0[x].member.user_id == member.user_id),
            decreases membs0.len() - t,
        {
            if self.members[t].chat_peer == *chat_peer && self.members[t].member.user_id
                == member.user_id {
                let peer = self.members[t].chat_peer.clone();
                self.members[t] = MemberRow { chat_peer: peer, member: member.duplicate() };
                proof {
                    assert(has_member(membs0, chat_peer@, member.user_id as int));
                }
                return ;
            }
            t = t + 1;
        }
        self.members.push(
            MemberRow { chat_peer: chat_peer.clone(), member: member.duplicate() },
        );
        proof {
            assert(self.members@ =~= membs0.push(
                MemberRow { chat_peer: *chat_peer, member: *member },
            ));
        }
    }

    /// Insert a batch of messages for one chat inside one transaction;
    /// a `(chat_peer, msg_id)` key already stored is left untouched.
    pub fn insert_messages_if_absent(&mut self, chat_peer: &String, batch: &Vec<MessageInfo>)
        requires
            old(self).wf(),
        ensures
            final(self).wf(),
            final(self).chats() == old(self).chats(),
            final(self).members() == old(self).members(),
            final(self).messages() == insert_msgs(old(self).messages(), *chat_peer, batch@),
    {
        let ghost chats0 = self.chats@;
        let ghost msgs0 = self.messages@;
        let ghost membs0 = self.members@;
        let mut k: usize = 0;
        while k < batch.len()
            invariant
                chats0 == old(self).chats@,
                msgs0 == old(self).messages@,
                membs0 == old(self).members@,
                distinct_chat_keys(chats0),
                distinct_member_keys(membs0),
                self.chats@ == chats0,
                self.members@ == membs0,
                k <= batch@.len(),
                self.messages@ == insert_msgs(msgs0, *chat_peer, batch@.take(k as int)),
                distinct_msg_keys(self.messages@),
            decreases batch@.len() - k,
        {
            let ghost before = self.messages@;
            let m = &batch[k];
            if !has_message_row(&self.messages, chat_peer, m.msg_id) {
                self.messages.push(
                    MessageRow { chat_peer: chat_peer.clone(), msg: m.duplicate(), urgent: false },
                );
                proof {
                    assert forall|i: int, j: int| 0 <= i < j < self.messages@.len() implies !((
                    #[trigger] self.messages@[i]).chat_peer@ == (
                    #[trigger] self.messages@[j]).chat_peer@ && self.messages@[i].msg.msg_id
                        == self.messages@[j].msg.msg_id) by {
                        if j == self.messages@.len() - 1 {
                            assert(!has_msg(before, chat_peer@, m.msg_id as int));
                        }
                    }
                }
            }
            proof {
                assert(batch@.take(k + 1).drop_last() =~= batch@.take(k as int));
                assert(batch@.take(k + 1).last() == batch@[k as int]);
            }
            k = k + 1;
        }
        proof {
            assert(batch@.take(batch@.len() as int) =~= batch@);
        }
    }

    /// The stored checkpoint of a chat: the highest message id on
    /// record, or nothing when no message of the chat is stored.
    pub fn max_message_id(&self, chat_peer: &String) -> (r: Option<i32>)
        ensures
            r is None <==> forall|t: int|
                0 <= t < self.messages().len() ==> (#[trigger] self.messages()[t]).chat_peer@
                    != chat_peer@,
            r matches Some(id) ==> has_msg(self.messages(), chat_peer@, id as int) && forall|t: int|
                0 <= t < self.messages().len() && (#[trigger] self.messages()[t]).chat_peer@
                    == chat_peer@ ==> self.messages()[t].msg.msg_id <= id,
    {
        let mut best: Option<i32> = None;
        let mut t: usize = 0;
        while t < self.messages.len()
            invariant
                t <= self.messages().len(),
                best is None <==> forall|x: int|
                    0 <= x < t ==> (#[trigger] self.messages()[x]).chat_peer@ != chat_peer@,
                best matches Some(id) ==> has_msg(self.messages(), chat_peer@, id as int) && forall|
                    x: int,
                |
                    0 <= x < t && (#[trigger] self.messages()[x]).chat_peer@ == chat_peer@
                        ==> self.messages()[x].msg.msg_id <= id,
            decreases self.messages().len() - t,
        {
            if self.messages[t].chat_peer == *chat_peer {
                let id = self.messages[t].msg.msg_id;
                best = match best {
                    None => Some(id),
                    Some(b) => if id > b {
                        Some(id)
                    } else {
                        Some(b)
                    },
                };
            }
            t = t + 1;
        }
        best
    }

    /// Set the urgent flag on the listed messages of a chat. The flag
    /// only ever moves from false to true; every other field and every
    /// other row is untouched.
    pub fn mark_urgent(&mut self, chat_peer: &String, ids: &Vec<i32>)
        requires
            old(self).wf(),
        ensures
            final(self).wf(),
            final(self).chats() == old(self).chats(),
            final(self).members() == old(self).members(),
            final(self).messages().len() == old(self).messages().len(),
            forall|t: int|
                0 <= t < old(self).messages().len() && (#[trigger] old(self).messages()[t]).chat_peer@
                    == chat_peer@ && ids@.contains(old(self).messages()[t].msg.msg_id)
                    ==> final(self).messages()[t] == marked_urgent(old(self).messages()[t]),
            forall|t: int|
                0 <= t < old(self).messages().len() && !((#[trigger] old(self).messages()[t]).chat_peer@
                    == chat_peer@ && ids@.contains(old(self).messages()[t].msg.msg_id))
                    ==> final(self).messages()[t] == old(self).messages()[t],
    {
        let ghost chats0 = self.chats@;
        let ghost msgs0 = self.messages@;
        let ghost membs0 = self.members@;
        let mut t: usize = 0;
        while t < self.messages.len()
            invariant
                chats0 == old(self).chats@,
                msgs0 == old(self).messages@,
                membs0 == old(self).members@,
                distinct_chat_keys(chats0),
                distinct_msg_keys(msgs0),
                distinct_member_keys(membs0),
                self.chats@ == chats0,
                self.members@ == membs0,
                t <= msgs0.len(),
                self.messages@.len() == msgs0.len(),
                forall|x: int|
                    0 <= x < t && (#[trigger] msgs0[x]).chat_peer@ == chat_peer@ && ids@.contains(
                        msgs0[x].msg.msg_id,
                    ) ==> self.messages@[x] == marked_urgent(msgs0[x]),
                forall|x: int|
                    0 <= x < t && !((#[trigger] msgs0[x]).chat_peer@ == chat_peer@ && ids@.contains(
                        msgs0[x].msg.msg_id,
                    )) ==> self.messages@[x] == msgs0[x],
                forall|x: int| t <= x < msgs0.len() ==> #[trigger] self.messages@[x] == msgs0[x],
            decreases msgs0.len() - t,
        {
            if self.messages[t].chat_peer == *chat_peer && id_listed(ids, self.messages[t].msg.msg_id) {
                let peer = self.messages[t].chat_peer.clone();
                let m = self.messages[t].msg.duplicate();
                self.messages[t] = MessageRow { chat_peer: peer, msg: m, urgent: true };
            }
            t = t + 1;
        }
        proof {
            assert(distinct_msg_keys(self.messages@)) by {
                assert forall|i: int, j: int| 0 <= i < j < self.messages@.len() implies !((
                #[trigger] self.messages@[i]).chat_peer@ == (
                #[trigger] self.messages@[j]).chat_peer@ && self.messages@[i].msg.msg_id
                    == self.messages@[j].msg.msg_id) by {
                    assert(self.messages@[i].chat_peer@ == msgs0[i].chat_peer@
                        && self.messages@[i].msg.msg_id == msgs0[i].msg.msg_id);
                    assert(self.messages@[j].chat_peer@ == msgs0[j].chat_peer@
                        && self.messages@[j].msg.msg_id == msgs0[j].msg.msg_id);
                }
            }
        }
    }

    /// Persist an analysis outcome for a chat: category and suggested
    /// name are last-write-wins; the duplicate flag is left for the
    /// resolver and everything else is untouched.
    pub fn set_analysis(&mut self, peer_id: &String, category: &String, suggested_name: &String)
        requires
            old(self).wf(),
        ensures
            final(self).wf(),
            final(self).messages() == old(self).messages(),
            final(self).members() == old(self).members(),
            final(self).chats().len() == old(self).chats().len(),
            forall|t: int|
                0 <= t < old(self).chats().len() && (#[trigger] old(self).chats()[t]).peer_id@
                    == peer_id@ ==> final(self).chats()[t] == (ChatRecord {
                    category: Some(*category),
                    suggested_name: Some(*suggested_name),
                    ..old(self).chats()[t]
                }),
            forall|t: int|
                0 <= t < old(self).chats().len() && (#[trigger] old(self).chats()[t]).peer_id@
                    != peer_id@ ==> final(self).chats()[t] == old(self).chats()[t],
    {
        let ghost chats0 = self.chats@;
        let ghost msgs0 = self.messages@;
        let ghost membs0 = self.members@;
        let mut t: usize = 0;
        while t < self.chats.len()
            invariant
                chats0 == old(self).chats@,
                msgs0 == old(self).messages@,
                membs0 == old(self).members@,
                distinct_chat_keys(chats0),
                distinct_msg_keys(msgs0),
                distinct_member_keys(membs0),
                self.chats@ == chats0,
                self.messages@ == msgs0,
                self.members@ == membs0,
                t <= chats0.len(),
                forall|x: int| 0 <= x < t ==> (#[trigger] chats0[x]).peer_id@ != peer_id@,
            decreases chats0.len() - t,
        {
            if self.chats[t].peer_id == *peer_id {
                let rec = self.chats[t].duplicate_record();
                self.chats[t] = ChatRecord {
                    category: Some(category.clone()),
                    suggested_name: Some(suggested_name.clone()),
                    ..rec
                };
                return ;
            }
            t = t + 1;
        }
    }

    /// The members stored for a chat, in storage order.
    pub fn get_chat_members(&self, chat_peer: &String) -> (r: Vec<MemberInfo>)
        ensures
            r@ == peer_members(self.members(), chat_peer@),
    {
        let mut out: Vec<MemberInfo> = Vec::new();
        let mut t: usize = 0;
        while t < self.members.len()
            invariant
                t <= self.members().len(),
                out@ == peer_members(self.members().take(t as int), chat_peer@),
            decreases self.members().len() - t,
        {
            if self.members[t].chat_peer == *chat_peer {
                out.push(self.members[t].member.duplicate());
            }
            proof {
                assert(self.members().take(t + 1).drop_last() =~= self.members().take(t as int));
                assert(self.members().take(t + 1).last() == self.members()[t as int]);
            }
            t = t + 1;
        }
        proof {
            assert(self.members().take(self.members().len() as int) =~= self.members());
        }
        out
    }

    /// The messages of a chat whose urgent flag is raised, in storage
    /// order.
    pub fn urgent_messages(&self, chat_peer: &String) -> (r: Vec<MessageInfo>)
        ensures
            r@ == urgent_msgs(self.messages(), chat_peer@),
    {
        let mut out: Vec<MessageInfo> = Vec::new();
        let mut t: usize = 0;
        while t < self.messages.len()
            invariant
                t <= self.messages().len(),
                out@ == urgent_msgs(self.messages().take(t as int), chat_peer@),
            decreases self.messages().len() - t,
        {
            if self.messages[t].chat_peer == *chat_peer && self.messages[t].urgent {
                out.push(self.messages[t].msg.duplicate());
            }
            proof {
                assert(self.messages().take(t + 1).drop_last() =~= self.messages().take(t as int));
                assert(self.messages().take(t + 1).last() == self.messages()[t as int]);
            }
            t = t + 1;
        }
        proof {
            assert(self.messages().take(self.messages().len() as int) =~= self.messages());
        }
        out
    }

    /// The stored record of a chat, if one exists.
    pub fn get_chat(&self, peer_id: &String) -> (r: Option<ChatRecord>)
        requires
            self.wf(),
        ensures
            !has_chat(self.chats(), peer_id@) ==> r is None,
            forall|t: int|
                0 <= t < self.chats().len() && (#[trigger] self.chats()[t]).peer_id@ == peer_id@
                    ==> r == Some(self.chats()[t]),
    {
        let mut t: usize = 0;
        while t < self.chats.len()
            invariant
                distinct_chat_keys(self.chats()),
                t <= self.chats().len(),
                forall|x: int| 0 <= x < t ==> (#[trigger] self.chats()[x]).peer_id@ != peer_id@,
            decreases self.chats().len() - t,
        {
            if self.chats[t].peer_id == *peer_id {
                return Some(self.chats[t].duplicate_record());
            }
            t = t + 1;
        }
        None
    }

    /// The stored category of a chat, if one is assigned.
    pub fn get_category(&self, peer_id: &String) -> (r: Option<String>)
        requires
            self.wf(),
        ensures
            !has_chat(self.chats(), peer_id@) ==> r is None,
            forall|t: int|
                0 <= t < self.chats().len() && (#[trigger] self.chats()[t]).peer_id@ == peer_id@
                    ==> r == self.chats()[t].category,
    {
        let mut t: usize = 0;
        while t < self.chats.len()
            invariant
                distinct_chat_keys(self.chats()),
                t <= self.chats().len(),
                forall|x: int| 0 <= x < t ==> (#[trigger] self.chats()[x]).peer_id@ != peer_id@,
            decreases self.chats().len() - t,
        {
            if self.chats[t].peer_id == *peer_id {
                return match &self.chats[t].category {
                    Some(c) => Some(c.clone()),
                    None => None,
                };
            }
            t = t + 1;
        }
        None
    }

    /// Every persisted `(category, peer_id)` assignment, in storage
    /// order: the resolver's second input.
    pub fn all_categories(&self) -> (r: Vec<(String, String)>)
        ensures
            r@ == persisted_pairs(self.chats()),
    {
        let mut out: Vec<(String, String)> = Vec::new();
        let mut t: usize = 0;
        while t < self.chats.len()
            invariant
                t <= self.chats().len(),
                out@ == persisted_pairs(self.chats().take(t as int)),
            decreases self.chats().len() - t,
        {
            match &self.chats[t].category {
                Some(c) => {
                    out.push((c.clone(), self.chats[t].peer_id.clone()));
                },
                None => {},
            }
            proof {
                assert(self.chats().take(t + 1).drop_last() =~= self.chats().take(t as int));
                assert(self.chats().take(t + 1).last() == self.chats()[t as int]);
            }
            t = t + 1;
        }
        proof {
            assert(self.chats().take(self.chats().len() as int) =~= self.chats());
        }
        out
    }

    /// Recompute every chat's duplicate flag in one transaction: all
    /// flags reset, then raised exactly for the listed peers.
    pub fn set_duplicate_flags(&mut self, dups: &Vec<String>)
        requires
            old(self).wf(),
        ensures
            final(self).wf(),
            final(self).messages() == old(self).messages(),
            final(self).members() == old(self).members(),
            final(self).chats() == apply_flags(old(self).chats(), dups@),
    {
        let ghost chats0 = self.chats@;
        let ghost msgs0 = self.messages@;
        let ghost membs0 = self.members@;
        let mut t: usize = 0;
        while t < self.chats.len()
            invariant
                chats0 == old(self).chats@,
                msgs0 == old(self).messages@,
                membs0 == old(self).members@,
                distinct_chat_keys(chats0),
                distinct_msg_keys(msgs0),
                distinct_member_keys(membs0),
                self.messages@ == msgs0,
                self.members@ == membs0,
                t <= chats0.len(),
                self.chats@.len() == chats0.len(),
                forall|x: int|
                    0 <= x < t ==> #[trigger] self.chats@[x] == apply_flags(chats0, dups@)[x],
                forall|x: int| t <= x < chats0.len() ==> #[trigger] self.chats@[x] == chats0[x],
            decreases chats0.len() - t,
        {
            let flag = contains_string(dups, &self.chats[t].peer_id);
            let rec = self.chats[t].duplicate_record();
            self.chats[t] = ChatRecord { duplicate: flag, ..rec };
            t = t + 1;
        }
        proof {
            assert(self.chats@ =~= apply_flags(chats0, dups@));
            assert forall|i: int, j: int| 0 <= i < j < self.chats@.len() implies (
            #[trigger] self.chats@[i]).peer_id@ != (#[trigger] self.chats@[j]).peer_id@ by {
                assert(self.chats@[i].peer_id == chats0[i].peer_id);
                assert(self.chats@[j].peer_id == chats0[j].peer_id);
            }
        }
    }

    /// Up to `limit` of the most recent stored messages of a chat
    /// (those with the highest ids), in ascending id order.
    pub fn recent_messages(&self, chat_peer: &String, limit: usize) -> (r: Vec<MessageInfo>)
        requires
            self.wf(),
        ensures
            strictly_ascending_ids(r@),
            r@.len() == if peer_msgs(self.messages(), chat_peer@).len() <= limit {
                peer_msgs(self.messages(), chat_peer@).len() as int
            } else {
                limit as int
            },
            forall|k: int|
                0 <= k < r@.len() ==> peer_has_message(
                    self.messages(),
                    chat_peer@,
                    #[trigger] r@[k],
                ),
            forall|m: MessageInfo|
                peer_has_message(self.messages(), chat_peer@, m) && !r@.contains(m) ==> forall|
                    k: int,
                | 0 <= k < r@.len() ==> m.msg_id < (#[trigger] r@[k]).msg_id,
    {
        let mut picked: Vec<MessageInfo> = Vec::new();
        let mut t: usize = 0;
        while t < self.messages.len()
            invariant
                t <= self.messages().len(),
                picked@ == peer_msgs(self.messages().take(t as int), chat_peer@),
            decreases self.messages().len() - t,
        {
            if self.messages[t].chat_peer == *chat_peer {
                picked.push(self.messages[t].msg.duplicate());
            }
            proof {
                assert(self.messages().take(t + 1).drop_last() =~= self.messages().take(t as int));
                assert(self.messages().take(t + 1).last() == self.messages()[t as int]);
            }
            t = t + 1;
        }
        proof {
            assert(self.messages().take(self.messages().len() as int) =~= self.messages());
            lemma_peer_msgs_members(self.messages(), chat_peer@);
            lemma_peer_msgs_complete(self.messages(), chat_peer@);
            lemma_peer_msgs_distinct(self.messages(), chat_peer@);
        }
        let ghost all_peer = picked@;
        let mut sorted = sort_by_msg_id(picked);
        let ghost sorted_seq = sorted@;
        proof {
            assert forall|k: int| 0 <= k < sorted_seq.len() implies peer_has_message(
                self.messages(),
                chat_peer@,
                #[trigger] sorted_seq[k],
            ) by {
                assert(sorted_seq.contains(sorted_seq[k]));
                assert(all_peer.contains(sorted_seq[k]));
                let x = choose|x: int| 0 <= x < all_peer.len() && all_peer[x] == sorted_seq[k];
                assert(peer_msgs(self.messages(), chat_peer@)[x] == sorted_seq[k]);
            }
        }
        if sorted.len() > limit {
            let cut = sorted.len() - limit;
            let tail = sorted.split_off(cut);
            proof {
                assert forall|k: int| 0 <= k < tail@.len() implies peer_has_message(
                    self.messages(),
                    chat_peer@,
                    #[trigger] tail@[k],
                ) by {
                    assert(tail@[k] == sorted_seq[cut + k]);
                }
                assert forall|m: MessageInfo|
                    peer_has_message(self.messages(), chat_peer@, m) && !tail@.contains(
                        m,
                    ) implies forall|k: int|
                    0 <= k < tail@.len() ==> m.msg_id < (#[trigger] tail@[k]).msg_id by {
                    assert(all_peer.contains(m));
                    assert(sorted_seq.contains(m));
                    let y = choose|y: int| 0 <= y < sorted_seq.len() && sorted_seq[y] == m;
                    if y >= cut {
                        assert(tail@[y - cut] == m);
                        assert(tail@.contains(m));
                        assert(false);
                    }
                    assert forall|k: int| 0 <= k < tail@.len() implies m.msg_id < (
                    #[trigger] tail@[k]).msg_id by {
                        assert(tail@[k] == sorted_seq[cut + k]);
                        assert(sorted_seq[y].msg_id < sorted_seq[cut + k].msg_id);
                    }
                }
            }
            tail
        } else {
            sorted
        }
    }
}

/// A message row with its urgent flag raised.
pub open spec fn marked_urgent(r: MessageRow) -> MessageRow {
    MessageRow { urgent: true, ..r }
}

/// The `(category, peer_id)` pairs of the chats that have a category,
/// in storage order.
pub open spec fn persisted_pairs(s: Seq<ChatRecord>) -> Seq<(String, String)>
    decreases s.len(),
{
    if s.len() == 0 {
        Seq::empty()
    } else {
        let rest = persisted_pairs(s.drop_last());
        match s.last().category {
            Some(c) => rest.push((c, s.last().peer_id)),
            None => rest,
        }
    }
}

/// The chats after a transactional duplicate-flag recomputation: every
/// flag cleared, then raised exactly for the listed peers.
pub open spec fn apply_flags(s: Seq<ChatRecord>, dups: Seq<String>) -> Seq<ChatRecord> {
    Seq::new(
        s.len(),
        |t: int| ChatRecord { duplicate: contains_str(dups, s[t].peer_id@), ..s[t] },
    )
}

/// Recomputing duplicate flags is idempotent: applying one duplicate
/// set twice leaves the state of applying it once.
pub proof fn lemma_apply_flags_idempotent(s: Seq<ChatRecord>, dups: Seq<String>)
    ensures
        apply_flags(apply_flags(s, dups), dups) == apply_flags(s, dups),
{
    assert(apply_flags(apply_flags(s, dups), dups) =~= apply_flags(s, dups));
}

/// The messages of one chat among the stored rows, in storage order.
pub open spec fn peer_msgs(rows: Seq<MessageRow>, peer: Seq<char>) -> Seq<MessageInfo>
    decreases rows.len(),
{
    if rows.len() == 0 {
        Seq::empty()
    } else {
        let rest = peer_msgs(rows.drop_last(), peer);
        if rows.last().chat_peer@ == peer {
            rest.push(rows.last().msg)
        } else {
            rest
        }
    }
}

/// The member records stored for one chat, in storage order.
pub open spec fn peer_members(rows: Seq<MemberRow>, peer: Seq<char>) -> Seq<MemberInfo>
    decreases rows.len(),
{
    if rows.len() == 0 {
        Seq::empty()
    } else {
        let rest = peer_members(rows.drop_last(), peer);
        if rows.last().chat_peer@ == peer {
            rest.push(rows.last().member)
        } else {
            rest
        }
    }
}

/// The urgent-flagged messages of one chat, in storage order.
pub open spec fn urgent_msgs(rows: Seq<MessageRow>, peer: Seq<char>) -> Seq<MessageInfo>
    decreases rows.len(),
{
    if rows.len() == 0 {
        Seq::empty()
    } else {
        let rest = urgent_msgs(rows.drop_last(), peer);
        if rows.last().chat_peer@ == peer && rows.last().urgent {
            rest.push(rows.last().msg)
        } else {
            rest
        }
    }
}

/// Some stored row of the chat carries exactly this message.
pub open spec fn peer_has_message(rows: Seq<MessageRow>, peer: Seq<char>, m: MessageInfo) -> bool {
    exists|t: int|
        0 <= t < rows.len() && (#[trigger] rows[t]).chat_peer@ == peer && rows[t].msg == m
}

/// Every filtered message is carried by some row of the chat.
proof fn lemma_peer_msgs_members(rows: Seq<MessageRow>, peer: Seq<char>)
    ensures
        forall|k: int|
            0 <= k < peer_msgs(rows, peer).len() ==> peer_has_message(
                rows,
                peer,
                #[trigger] peer_msgs(rows, peer)[k],
            ),
    decreases rows.len(),
{
    if rows.len() > 0 {
        let sub = rows.drop_last();
        lemma_peer_msgs_members(sub, peer);
        assert forall|k: int| 0 <= k < peer_msgs(rows, peer).len() implies peer_has_message(
            rows,
            peer,
            #[trigger] peer_msgs(rows, peer)[k],
        ) by {
            let m = peer_msgs(rows, peer)[k];
            if k < peer_msgs(sub, peer).len() {
                assert(peer_msgs(sub, peer)[k] == m);
                let t = choose|t: int|
                    0 <= t < sub.len() && (#[trigger] sub[t]).chat_peer@ == peer && sub[t].msg
                        == m;
                assert(rows[t].chat_peer@ == peer && rows[t].msg == m);
            } else {
                assert(rows[rows.len() - 1].chat_peer@ == peer && rows[rows.len() - 1].msg == m);
            }
        }
    }
}

/// Every message carried by a row of the chat is in the filter.
proof fn lemma_peer_msgs_complete(rows: Seq<MessageRow>, peer: Seq<char>)
    ensures
        forall|m: MessageInfo|
            peer_has_message(rows, peer, m) ==> peer_msgs(rows, peer).contains(m),
    decreases rows.len(),
{
    if rows.len() > 0 {
        let sub = rows.drop_last();
        lemma_peer_msgs_complete(sub, peer);
        assert forall|m: MessageInfo| peer_has_message(rows, peer, m) implies peer_msgs(
            rows,
            peer,
        ).contains(m) by {
            let t = choose|t: int|
                0 <= t < rows.len() && (#[trigger] rows[t]).chat_peer@ == peer && rows[t].msg
                    == m;
            if t < rows.len() - 1 {
                assert(sub[t] == rows[t]);
                assert(peer_has_message(sub, peer, m));
                assert(peer_msgs(sub, peer).contains(m));
                let k = choose|k: int|
                    0 <= k < peer_msgs(sub, peer).len() && peer_msgs(sub, peer)[k] == m;
                assert(peer_msgs(rows, peer)[k] == m);
            } else {
                assert(peer_msgs(rows, peer).last() == m);
            }
        }
    }
}

/// With unique message keys the filtered messages have distinct ids.
proof fn lemma_peer_msgs_distinct(rows: Seq<MessageRow>, peer: Seq<char>)
    requires
        distinct_msg_keys(rows),
    ensures
        distinct_ids(peer_msgs(rows, peer)),
    decreases rows.len(),
{
    if rows.len() > 0 {
        let sub = rows.drop_last();
        assert(distinct_msg_keys(sub)) by {
            assert(forall|t: int| 0 <= t < sub.len() ==> #[trigger] sub[t] == rows[t]);
        }
        lemma_peer_msgs_distinct(sub, peer);
        lemma_peer_msgs_members(sub, peer);
        if rows.last().chat_peer@ == peer {
            let res = peer_msgs(rows, peer);
            assert forall|i: int, j: int| 0 <= i < j < res.len() implies res[i].msg_id
                != res[j].msg_id by {
                if j == res.len() - 1 {
                    assert(res[i] == peer_msgs(sub, peer)[i]);
                    let t = choose|t: int|
                        0 <= t < sub.len() && (#[trigger] sub[t]).chat_peer@ == peer && sub[t].msg
                            == res[i];
                    assert(!(rows[t].chat_peer@ == rows[rows.len() - 1].chat_peer@
                        && rows[t].msg.msg_id == rows[rows.len() - 1].msg.msg_id));
                }
            }
        }
    }
}

/// The rows after inserting a batch for one chat, in order: an id
/// already present (from this batch or from an earlier cycle) is
/// skipped, everything else is appended with a clear urgent flag.
pub open spec fn insert_msgs(
    rows: Seq<MessageRow>,
    peer: String,
    batch: Seq<MessageInfo>,
) -> Seq<MessageRow>
    decreases batch.len(),
{
    if batch.len() == 0 {
        rows
    } else {
        let prev = insert_msgs(rows, peer, batch.drop_last());
        if has_msg(prev, peer@, batch.last().msg_id as int) {
            prev
        } else {
            prev.push(MessageRow { chat_peer: peer, msg: batch.last(), urgent: false })
        }
    }
}

/// Whether a row with key `(peer, id)` is stored.
fn has_message_row(rows: &Vec<MessageRow>, peer: &String, id: i32) -> (r: bool)
    ensures
        r == has_msg(rows@, peer@, id as int),
{
    let mut t: usize = 0;
    while t < rows.len()
        invariant
            t <= rows@.len(),
            forall|x: int|
                0 <= x < t ==> !((#[trigger] rows@[x]).chat_peer@ == peer@ && rows@[x].msg.msg_id
                    == id),
        decreases rows@.len() - t,
    {
        if rows[t].chat_peer == *peer && rows[t].msg.msg_id == id {
            return true;
        }
        t = t + 1;
    }
    false
}

/// Whether `id` occurs in `ids`.
fn id_listed(ids: &Vec<i32>, id: i32) -> (r: bool)
    ensures
        r == ids@.contains(id),
{
    let mut t: usize = 0;
    while t < ids.len()
        invariant
            t <= ids@.len(),
            forall|x: int| 0 <= x < t ==> ids@[x] != id,
        decreases ids@.len() - t,
    {
        if ids[t] == id {
            return true;
        }
        t = t + 1;
    }
    false
}

/// Inserting only appends: every row already stored keeps its place.
pub proof fn lemma_insert_msgs_extends(rows: Seq<MessageRow>, peer: String, batch: Seq<MessageInfo>)
    ensures
        insert_msgs(rows, peer, batch).len() >= rows.len(),
        forall|t: int|
            0 <= t < rows.len() ==> insert_msgs(rows, peer, batch)[t] == #[trigger] rows[t],
    decreases batch.len(),
{
    if batch.len() > 0 {
        lemma_insert_msgs_extends(rows, peer, batch.drop_last());
    }
}

/// After an insert, every id of the batch is stored for the chat.
pub proof fn lemma_insert_msgs_covers(rows: Seq<MessageRow>, peer: String, batch: Seq<MessageInfo>)
    ensures
        forall|k: int|
            0 <= k < batch.len() ==> has_msg(
                insert_msgs(rows, peer, batch),
                peer@,
                (#[trigger] batch[k]).msg_id as int,
            ),
    decreases batch.len(),
{
    if batch.len() > 0 {
        lemma_insert_msgs_covers(rows, peer, batch.drop_last());
        let prev = insert_msgs(rows, peer, batch.drop_last());
        let res = insert_msgs(rows, peer, batch);
        lemma_insert_msgs_extends(prev, peer, seq![batch.last()]);
        assert forall|k: int| 0 <= k < batch.len() implies has_msg(
            res,
            peer@,
            (#[trigger] batch[k]).msg_id as int,
        ) by {
            if k < batch.len() - 1 {
                assert(batch.drop_last()[k] == batch[k]);
                let t = choose|t: int|
                    0 <= t < prev.len() && (#[trigger] prev[t]).chat_peer@ == peer@
                        && prev[t].msg.msg_id == batch[k].msg_id;
                assert(res[t] == prev[t]) by {
                    if !has_msg(prev, peer@, batch.last().msg_id as int) {
                        assert(res == prev.push(
                            MessageRow { chat_peer: peer, msg: batch.last(), urgent: false },
                        ));
                    }
                }
            } else {
                if !has_msg(prev, peer@, batch.last().msg_id as int) {
                    assert(res.last().chat_peer@ == peer@ && res.last().msg.msg_id
                        == batch.last().msg_id);
                } else {
                    let t = choose|t: int|
                        0 <= t < prev.len() && (#[trigger] prev[t]).chat_peer@ == peer@
                            && prev[t].msg.msg_id == batch.last().msg_id;
                    assert(res[t] == prev[t]);
                }
            }
        }
    }
}

/// A batch whose ids are all stored already changes nothing.
pub proof fn lemma_insert_msgs_noop(rows: Seq<MessageRow>, peer: String, batch: Seq<MessageInfo>)
    requires
        forall|k: int|
            0 <= k < batch.len() ==> has_msg(rows, peer@, (#[trigger] batch[k]).msg_id as int),
    ensures
        insert_msgs(rows, peer, batch) == rows,
    decreases batch.len(),
{
    if batch.len() > 0 {
        assert(forall|k: int|
            0 <= k < batch.drop_last().len() ==> has_msg(
                rows,
                peer@,
                (#[trigger] batch.drop_last()[k]).msg_id as int,
            ));
        lemma_insert_msgs_noop(rows, peer, batch.drop_last());
        assert(batch[batch.len() - 1] == batch.last());
    }
}

/// Checkpoints never move backward: an insert only appends rows, so
/// every `(chat_peer, msg_id)` key stored before it is stored after
/// it, and the highest stored id of a chat can only grow.
pub proof fn lemma_checkpoint_monotone(
    rows: Seq<MessageRow>,
    peer: String,
    batch: Seq<MessageInfo>,
    other: Seq<char>,
    id: int,
)
    requires
        has_msg(rows, other, id),
    ensures
        has_msg(insert_msgs(rows, peer, batch), other, id),
{
    lemma_insert_msgs_extends(rows, peer, batch);
    let t = choose|t: int|
        0 <= t < rows.len() && (#[trigger] rows[t]).chat_peer@ == other && rows[t].msg.msg_id
            == id;
    assert(insert_msgs(rows, peer, batch)[t] == rows[t]);
}

/// Idempotent storage: inserting the same batch twice leaves exactly
/// the rows of one insert; in particular a repeated `(chat_peer,
/// msg_id)` key stays a single row, with all its flags untouched by
/// the re-insert.
pub proof fn lemma_insert_msgs_idempotent(
    rows: Seq<MessageRow>,
    peer: String,
    batch: Seq<MessageInfo>,
)
    ensures
        insert_msgs(insert_msgs(rows, peer, batch), peer, batch) == insert_msgs(rows, peer, batch),
{
    lemma_insert_msgs_covers(rows, peer, batch);
    lemma_insert_msgs_noop(insert_msgs(rows, peer, batch), peer, batch);
}

} // verus!
