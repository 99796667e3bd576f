use chat_sync::model::{ChatInfo, ChatKind, MemberInfo, MessageInfo};
use chat_sync::store::Store;

fn chat(peer: &str, title: &str) -> ChatInfo {
    ChatInfo {
        peer_id: peer.to_string(),
        title: title.to_string(),
        kind: ChatKind::Group,
        tg_id: 42,
        access_hash: None,
    }
}

fn msg(id: i32) -> MessageInfo {
    MessageInfo { msg_id: id, date: 1000 + id, text: format!("message {}", id) }
}

fn peer(p: &str) -> String {
    p.to_string()
}

#[test]
fn inserting_the_same_message_twice_keeps_one_row() {
    let mut st = Store::new();
    st.upsert_chat(&chat("c1", "One"));
    let batch = vec![msg(5)];
    st.insert_messages_if_absent(&peer("c1"), &batch);
    st.insert_messages_if_absent(&peer("c1"), &batch);
    assert_eq!(st.max_message_id(&peer("c1")), Some(5));
    // One row only: the five most recent messages hold exactly one entry.
    let recent = st.recent_messages(&peer("c1"), 5);
    assert_eq!(recent.len(), 1);
    assert_eq!(recent[0].msg_id, 5);
}

#[test]
fn reinsert_leaves_the_urgent_flag_alone() {
    let mut st = Store::new();
    st.upsert_chat(&chat("c1", "One"));
    st.insert_messages_if_absent(&peer("c1"), &vec![msg(5)]);
    st.mark_urgent(&peer("c1"), &vec![5]);
    assert_eq!(st.urgent_messages(&peer("c1")).len(), 1);
    // Re-inserting the same id must not reset the urgent flag; the
    // row count stays one as well.
    st.insert_messages_if_absent(&peer("c1"), &vec![msg(5)]);
    let recent = st.recent_messages(&peer("c1"), 5);
    assert_eq!(recent.len(), 1);
    assert_eq!(st.urgent_messages(&peer("c1")).len(), 1);
}

#[test]
fn checkpoint_is_the_highest_stored_id() {
    let mut st = Store::new();
    st.upsert_chat(&chat("c1", "One"));
    assert_eq!(st.max_message_id(&peer("c1")), None);
    st.insert_messages_if_absent(&peer("c1"), &vec![msg(501), msg(502), msg(503)]);
    assert_eq!(st.max_message_id(&peer("c1")), Some(503));
    // Messages of another chat do not affect the checkpoint.
    st.upsert_chat(&chat("c2", "Two"));
    st.insert_messages_if_absent(&peer("c2"), &vec![msg(900)]);
    assert_eq!(st.max_message_id(&peer("c1")), Some(503));
}

#[test]
fn upsert_chat_preserves_analysis_fields() {
    let mut st = Store::new();
    st.upsert_chat(&chat("c1", "Old Title"));
    st.set_analysis(&peer("c1"), &"Ops".to_string(), &"Ops HQ".to_string());
    st.upsert_chat(&chat("c1", "New Title"));
    let rec = st.get_chat(&peer("c1")).unwrap();
    assert_eq!(rec.title, "New Title");
    assert_eq!(rec.category, Some("Ops".to_string()));
    assert_eq!(rec.suggested_name, Some("Ops HQ".to_string()));
    assert!(!rec.duplicate);
}

#[test]
fn set_analysis_is_last_write_wins_and_leaves_duplicate_alone() {
    let mut st = Store::new();
    st.upsert_chat(&chat("c1", "One"));
    st.set_analysis(&peer("c1"), &"First".to_string(), &"A".to_string());
    st.set_duplicate_flags(&vec![peer("c1")]);
    st.set_analysis(&peer("c1"), &"Second".to_string(), &"B".to_string());
    let rec = st.get_chat(&peer("c1")).unwrap();
    assert_eq!(rec.category, Some("Second".to_string()));
    assert_eq!(rec.suggested_name, Some("B".to_string()));
    assert!(rec.duplicate, "the analysis update must not clear the flag");
}

#[test]
fn duplicate_flags_are_recomputed_wholesale() {
    let mut st = Store::new();
    st.upsert_chat(&chat("a", "A"));
    st.upsert_chat(&chat("b", "B"));
    st.upsert_chat(&chat("c", "C"));
    st.set_duplicate_flags(&vec![peer("a"), peer("b")]);
    assert!(st.get_chat(&peer("a")).unwrap().duplicate);
    assert!(st.get_chat(&peer("b")).unwrap().duplicate);
    assert!(!st.get_chat(&peer("c")).unwrap().duplicate);
    // A second application with another set resets everything first.
    st.set_duplicate_flags(&vec![peer("c")]);
    assert!(!st.get_chat(&peer("a")).unwrap().duplicate);
    assert!(!st.get_chat(&peer("b")).unwrap().duplicate);
    assert!(st.get_chat(&peer("c")).unwrap().duplicate);
}

#[test]
fn applying_the_same_flag_set_twice_changes_nothing() {
    let mut st = Store::new();
    st.upsert_chat(&chat("a", "A"));
    st.upsert_chat(&chat("b", "B"));
    let dups = vec![peer("a")];
    st.set_duplicate_flags(&dups);
    let first_a = st.get_chat(&peer("a")).unwrap().duplicate;
    let first_b = st.get_chat(&peer("b")).unwrap().duplicate;
    st.set_duplicate_flags(&dups);
    assert_eq!(st.get_chat(&peer("a")).unwrap().duplicate, first_a);
    assert_eq!(st.get_chat(&peer("b")).unwrap().duplicate, first_b);
}

#[test]
fn all_categories_lists_only_assigned_chats() {
    let mut st = Store::new();
    st.upsert_chat(&chat("a", "A"));
    st.upsert_chat(&chat("b", "B"));
    st.upsert_chat(&chat("c", "C"));
    st.set_analysis(&peer("a"), &"Ops".to_string(), &"A".to_string());
    st.set_analysis(&peer("c"), &"Sales".to_string(), &"C".to_string());
    let cats = st.all_categories();
    assert_eq!(
        cats,
        vec![
            ("Ops".to_string(), "a".to_string()),
            ("Sales".to_string(), "c".to_string()),
        ]
    );
}

#[test]
fn recent_messages_returns_the_newest_ascending() {
    let mut st = Store::new();
    st.upsert_chat(&chat("c1", "One"));
    st.insert_messages_if_absent(
        &peer("c1"),
        &vec![msg(30), msg(10), msg(50), msg(20), msg(40)],
    );
    let recent = st.recent_messages(&peer("c1"), 3);
    let ids: Vec<i32> = recent.iter().map(|m| m.msg_id).collect();
    assert_eq!(ids, vec![30, 40, 50]);
    let all = st.recent_messages(&peer("c1"), 10);
    let ids: Vec<i32> = all.iter().map(|m| m.msg_id).collect();
    assert_eq!(ids, vec![10, 20, 30, 40, 50]);
}

#[test]
fn mark_urgent_only_touches_listed_ids_of_that_chat() {
    let mut st = Store::new();
    st.upsert_chat(&chat("c1", "One"));
    st.upsert_chat(&chat("c2", "Two"));
    st.insert_messages_if_absent(&peer("c1"), &vec![msg(1), msg(2)]);
    st.insert_messages_if_absent(&peer("c2"), &vec![msg(1)]);
    st.mark_urgent(&peer("c1"), &vec![1, 99]);
    let urgent_one: Vec<i32> =
        st.urgent_messages(&peer("c1")).iter().map(|m| m.msg_id).collect();
    assert_eq!(urgent_one, vec![1]);
    assert!(st.urgent_messages(&peer("c2")).is_empty());
    // Counts and checkpoints are untouched by the flag update.
    assert_eq!(st.max_message_id(&peer("c1")), Some(2));
    assert_eq!(st.max_message_id(&peer("c2")), Some(1));
    assert_eq!(st.recent_messages(&peer("c1"), 10).len(), 2);
    assert_eq!(st.recent_messages(&peer("c2"), 10).len(), 1);
}

#[test]
fn members_are_replaced_wholesale() {
    let mut st = Store::new();
    st.upsert_chat(&chat("c1", "One"));
    let first = MemberInfo {
        user_id: 7,
        name: "Ada".to_string(),
        username: Some("ada".to_string()),
        bio: None,
    };
    st.upsert_member(&peer("c1"), &first);
    let second = MemberInfo {
        user_id: 7,
        name: "Ada L".to_string(),
        username: None,
        bio: Some("mathematician".to_string()),
    };
    st.upsert_member(&peer("c1"), &second);
    let members = st.get_chat_members(&peer("c1"));
    assert_eq!(members.len(), 1);
    assert_eq!(members[0].name, "Ada L");
    assert_eq!(members[0].username, None);
    assert_eq!(members[0].bio, Some("mathematician".to_string()));
}
