use chat_sync::analysis::normalize_analysis;
use chat_sync::model::{ChatInfo, ChatKind, MessageInfo};
use chat_sync::orchestrator::{
    CYCLE_INTERVAL_SECS, CycleAction, CycleEvent, Orchestrator, Phase,
};
use chat_sync::paginator::{PageItem, Paginator, PageResponse};
use chat_sync::resolver::duplicate_peers;
use chat_sync::store::Store;

fn chat(peer: &str, title: &str) -> ChatInfo {
    ChatInfo {
        peer_id: peer.to_string(),
        title: title.to_string(),
        kind: ChatKind::Channel,
        tg_id: 7,
        access_hash: Some(99),
    }
}

fn msg(id: i32) -> MessageInfo {
    MessageInfo { msg_id: id, date: 1000 + id, text: format!("message {}", id) }
}

#[test]
fn dialog_failure_skips_straight_to_sleep() {
    // A failed dialog-list fetch abandons the cycle: the only actions
    // of the whole cycle are the fetch and the sleep, so no storage
    // action is ever issued, and the next cycle begins after exactly
    // one sleep interval.
    let mut orch = Orchestrator::new();
    assert_eq!(orch.step(CycleEvent::TimerFired), CycleAction::FetchDialogs);
    let action = orch.step(CycleEvent::DialogsFailed);
    assert_eq!(action, CycleAction::Sleep { secs: CYCLE_INTERVAL_SECS });
    assert_eq!(orch.current_phase(), Phase::Idle);
    // After that one sleep the schedule resumes normally.
    assert_eq!(orch.step(CycleEvent::TimerFired), CycleAction::FetchDialogs);
}

#[test]
fn unexpected_events_change_nothing() {
    let mut orch = Orchestrator::new();
    assert_eq!(orch.step(CycleEvent::Resolved), CycleAction::Noop);
    assert_eq!(orch.current_phase(), Phase::Idle);
    assert_eq!(orch.step(CycleEvent::TimerFired), CycleAction::FetchDialogs);
    assert_eq!(orch.step(CycleEvent::TimerFired), CycleAction::Noop);
    assert_eq!(orch.current_phase(), Phase::AwaitingDialogs);
}

#[test]
fn empty_dialog_list_still_resolves_duplicates() {
    let mut orch = Orchestrator::new();
    orch.step(CycleEvent::TimerFired);
    let action = orch.step(CycleEvent::DialogsFetched { count: 0 });
    assert_eq!(action, CycleAction::ResolveDuplicates);
    assert_eq!(
        orch.step(CycleEvent::Resolved),
        CycleAction::Sleep { secs: CYCLE_INTERVAL_SECS }
    );
}

#[test]
fn analysis_is_skipped_when_category_exists_and_nothing_is_new() {
    let mut orch = Orchestrator::new();
    orch.step(CycleEvent::TimerFired);
    assert_eq!(
        orch.step(CycleEvent::DialogsFetched { count: 1 }),
        CycleAction::RefreshChat { idx: 0 }
    );
    assert_eq!(
        orch.step(CycleEvent::ChatRefreshed),
        CycleAction::ReadCheckpoint { idx: 0 }
    );
    assert_eq!(
        orch.step(CycleEvent::CheckpointRead { last_seen_id: 40 }),
        CycleAction::FetchHistory { idx: 0, since: 40 }
    );
    assert_eq!(
        orch.step(CycleEvent::HistoryFetched { fetched: 0 }),
        CycleAction::SaveMessages { idx: 0 }
    );
    assert_eq!(
        orch.step(CycleEvent::MessagesSaved),
        CycleAction::ReadCategory { idx: 0 }
    );
    // Category present and no new messages: no analysis this cycle.
    assert_eq!(
        orch.step(CycleEvent::CategoryRead { has_category: true }),
        CycleAction::ResolveDuplicates
    );
}

#[test]
fn missing_category_triggers_analysis_even_without_new_messages() {
    let mut orch = Orchestrator::new();
    orch.step(CycleEvent::TimerFired);
    orch.step(CycleEvent::DialogsFetched { count: 1 });
    orch.step(CycleEvent::ChatRefreshed);
    orch.step(CycleEvent::CheckpointRead { last_seen_id: 0 });
    orch.step(CycleEvent::HistoryFetched { fetched: 0 });
    orch.step(CycleEvent::MessagesSaved);
    assert_eq!(
        orch.step(CycleEvent::CategoryRead { has_category: false }),
        CycleAction::Analyze { idx: 0 }
    );
}

#[test]
fn analysis_failure_leaves_no_recorded_pair_and_moves_on() {
    let mut orch = Orchestrator::new();
    orch.step(CycleEvent::TimerFired);
    orch.step(CycleEvent::DialogsFetched { count: 2 });
    orch.step(CycleEvent::ChatRefreshed);
    orch.step(CycleEvent::ChatRefreshed);
    orch.step(CycleEvent::CheckpointRead { last_seen_id: 0 });
    orch.step(CycleEvent::HistoryFetched { fetched: 3 });
    orch.step(CycleEvent::MessagesSaved);
    orch.step(CycleEvent::CategoryRead { has_category: false });
    assert_eq!(
        orch.step(CycleEvent::AnalysisFailed),
        CycleAction::ReadCheckpoint { idx: 1 }
    );
    orch.step(CycleEvent::CheckpointRead { last_seen_id: 0 });
    orch.step(CycleEvent::HistoryFetched { fetched: 0 });
    orch.step(CycleEvent::MessagesSaved);
    assert_eq!(
        orch.step(CycleEvent::CategoryRead { has_category: true }),
        CycleAction::ResolveDuplicates
    );
    assert!(orch.take_fresh().is_empty());
}

#[test]
fn negative_checkpoint_is_clamped_to_zero() {
    let mut orch = Orchestrator::new();
    orch.step(CycleEvent::TimerFired);
    orch.step(CycleEvent::DialogsFetched { count: 1 });
    orch.step(CycleEvent::ChatRefreshed);
    assert_eq!(
        orch.step(CycleEvent::CheckpointRead { last_seen_id: -3 }),
        CycleAction::FetchHistory { idx: 0, since: 0 }
    );
}

/// One full cycle driven against the in-memory store: chat `c1` has
/// checkpoint 500, the remote page yields 502, 501, 503, analysis
/// assigns categories that collide case-insensitively across chats.
#[test]
fn one_cycle_end_to_end() {
    let chats = vec![
        chat("c1", "First"),
        chat("c2", "Second"),
        chat("c3", "Third"),
        chat("c4", "Fourth"),
    ];
    // What the synthetic analysis collaborator answers per chat.
    let analysis_answers = vec![
        ("General", "First"),
        ("Project Alpha", "Second"),
        ("project alpha", "Third"),
        ("Logistics", "Fourth"),
    ];

    let mut store = Store::new();
    for c in &chats {
        store.upsert_chat(c);
    }
    store.insert_messages_if_absent(
        &"c1".to_string(),
        &(1..=500).map(msg).collect::<Vec<_>>(),
    );
    assert_eq!(store.max_message_id(&"c1".to_string()), Some(500));

    let mut orch = Orchestrator::new();
    let mut action = orch.step(CycleEvent::TimerFired);
    let mut pending_batch: Vec<MessageInfo> = Vec::new();
    let mut slept = 0u64;
    loop {
        match action {
            CycleAction::FetchDialogs => {
                action = orch.step(CycleEvent::DialogsFetched { count: chats.len() });
            }
            CycleAction::RefreshChat { idx } => {
                store.upsert_chat(&chats[idx]);
                action = orch.step(CycleEvent::ChatRefreshed);
            }
            CycleAction::ReadCheckpoint { idx } => {
                let last = store.max_message_id(&chats[idx].peer_id).unwrap_or(0);
                action = orch.step(CycleEvent::CheckpointRead { last_seen_id: last });
            }
            CycleAction::FetchHistory { idx, since } => {
                let mut p = Paginator::new(since);
                // The remote has three new messages for c1, nothing else.
                let page: Vec<PageItem> = if idx == 0 {
                    vec![
                        PageItem::Message(msg(502)),
                        PageItem::Message(msg(501)),
                        PageItem::Message(msg(503)),
                    ]
                } else {
                    Vec::new()
                };
                p.on_response(PageResponse::Items(page));
                pending_batch = p.finish();
                let fetched = pending_batch.len();
                action = orch.step(CycleEvent::HistoryFetched { fetched });
            }
            CycleAction::SaveMessages { idx } => {
                store.insert_messages_if_absent(&chats[idx].peer_id, &pending_batch);
                action = orch.step(CycleEvent::MessagesSaved);
            }
            CycleAction::ReadCategory { idx } => {
                let has = store.get_category(&chats[idx].peer_id).is_some();
                action = orch.step(CycleEvent::CategoryRead { has_category: has });
            }
            CycleAction::Analyze { idx } => {
                let (raw_cat, raw_name) = analysis_answers[idx];
                let (cat, name) = normalize_analysis(
                    raw_cat.to_string(),
                    raw_name.to_string(),
                    &chats[idx].title,
                );
                store.set_analysis(&chats[idx].peer_id, &cat, &name);
                action = orch.step(CycleEvent::AnalysisDone { category: cat });
            }
            CycleAction::SaveAnalysis { idx } => {
                let _ = idx;
                action = orch.step(CycleEvent::AnalysisSaved);
            }
            CycleAction::ResolveDuplicates => {
                let fresh = orch.take_fresh();
                let mut pairs: Vec<(String, String)> = fresh
                    .into_iter()
                    .map(|(cat, idx)| (cat, chats[idx].peer_id.clone()))
                    .collect();
                pairs.extend(store.all_categories());
                let dups = duplicate_peers(&pairs);
                store.set_duplicate_flags(&dups);
                action = orch.step(CycleEvent::Resolved);
            }
            CycleAction::Sleep { secs } => {
                slept = secs;
                break;
            }
            other => panic!("unexpected action {:?}", other),
        }
    }

    assert_eq!(slept, CYCLE_INTERVAL_SECS);
    // The new checkpoint observed on the next cycle is 503, and the
    // batch was stored sorted ascending.
    assert_eq!(store.max_message_id(&"c1".to_string()), Some(503));
    let tail = store.recent_messages(&"c1".to_string(), 3);
    let ids: Vec<i32> = tail.iter().map(|m| m.msg_id).collect();
    assert_eq!(ids, vec![501, 502, 503]);
    // Case-different categories marked both chats; the unique ones stay clean.
    assert!(store.get_chat(&"c2".to_string()).unwrap().duplicate);
    assert!(store.get_chat(&"c3".to_string()).unwrap().duplicate);
    assert!(!store.get_chat(&"c4".to_string()).unwrap().duplicate);
    assert!(!store.get_chat(&"c1".to_string()).unwrap().duplicate);
    assert_eq!(
        store.get_chat(&"c2".to_string()).unwrap().category,
        Some("Project Alpha".to_string())
    );
}
