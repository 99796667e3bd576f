use chat_sync::model::MessageInfo;
use chat_sync::paginator::{PAGE_SIZE, PageItem, PageRequest, Paginator, PageResponse};

fn msg(id: i32) -> MessageInfo {
    MessageInfo { msg_id: id, date: 1000 + id, text: format!("message {}", id) }
}

/// Serve one page from a synthetic history: the ids inside the open
/// window `(min_id, max_id)`, newest first, at most `limit` of them.
fn serve_page(history: &[i32], req: &PageRequest) -> Vec<PageItem> {
    let mut in_window: Vec<i32> = history
        .iter()
        .copied()
        .filter(|&id| id > req.min_id && (req.max_id == 0 || id < req.max_id))
        .collect();
    in_window.sort();
    in_window.reverse();
    in_window.truncate(req.limit);
    in_window.into_iter().map(|id| PageItem::Message(msg(id))).collect()
}

/// Drive a full walk over a synthetic history; returns the batch and
/// how many requests were answered.
fn run_walk(history: &[i32], last_seen: i32) -> (Vec<MessageInfo>, usize) {
    let mut p = Paginator::new(last_seen);
    let mut requests: usize = 0;
    while p.is_in_progress() {
        let req = p.next_request();
        assert_eq!(req.limit, PAGE_SIZE);
        let page = serve_page(history, &req);
        requests += 1;
        p.on_response(PageResponse::Items(page));
    }
    (p.finish(), requests)
}

fn assert_strictly_ascending_above(batch: &[MessageInfo], last_seen: i32) {
    for w in batch.windows(2) {
        assert!(w[0].msg_id < w[1].msg_id);
    }
    for m in batch {
        assert!(m.msg_id > last_seen);
    }
}

#[test]
fn walk_from_scratch_returns_everything_ascending() {
    let history: Vec<i32> = (1..=250).collect();
    let (batch, requests) = run_walk(&history, 0);
    assert_eq!(batch.len(), 250);
    assert_strictly_ascending_above(&batch, 0);
    // ceil(250 / 100) + 1 = 4 simulated requests at most
    assert!(requests <= 4);
}

#[test]
fn walk_from_checkpoint_only_returns_newer_ids() {
    let history: Vec<i32> = (1..=230).collect();
    let (batch, requests) = run_walk(&history, 200);
    assert_eq!(batch.len(), 30);
    assert_strictly_ascending_above(&batch, 200);
    assert_eq!(batch[0].msg_id, 201);
    assert_eq!(batch[29].msg_id, 230);
    assert!(requests <= 2);
}

#[test]
fn walk_with_no_new_messages_is_one_request() {
    let history: Vec<i32> = (1..=50).collect();
    let (batch, requests) = run_walk(&history, 50);
    assert!(batch.is_empty());
    assert_eq!(requests, 1);
}

#[test]
fn request_count_is_bounded_for_exact_page_multiples() {
    // 200 new messages: two full pages and one empty page to stop.
    let history: Vec<i32> = (1..=200).collect();
    let (batch, requests) = run_walk(&history, 0);
    assert_eq!(batch.len(), 200);
    assert!(requests <= 3);  // ceil(200 / 100) + 1
}

#[test]
fn service_items_are_skipped() {
    let mut p = Paginator::new(0);
    let page = vec![
        PageItem::Message(msg(7)),
        PageItem::Other,
        PageItem::Message(msg(3)),
        PageItem::Other,
    ];
    p.on_response(PageResponse::Items(page));
    assert!(!p.is_in_progress());
    let batch = p.finish();
    let ids: Vec<i32> = batch.iter().map(|m| m.msg_id).collect();
    assert_eq!(ids, vec![3, 7]);
}

#[test]
fn duplicate_ids_within_a_response_are_kept_once() {
    let mut p = Paginator::new(0);
    let page = vec![PageItem::Message(msg(5)), PageItem::Message(msg(5))];
    p.on_response(PageResponse::Items(page));
    let batch = p.finish();
    assert_eq!(batch.len(), 1);
    assert_eq!(batch[0].msg_id, 5);
}

#[test]
fn ids_at_or_below_the_checkpoint_are_filtered() {
    let mut p = Paginator::new(100);
    let page = vec![
        PageItem::Message(msg(99)),
        PageItem::Message(msg(100)),
        PageItem::Message(msg(101)),
    ];
    p.on_response(PageResponse::Items(page));
    let batch = p.finish();
    assert_eq!(batch.len(), 1);
    assert_eq!(batch[0].msg_id, 101);
}

#[test]
fn unknown_chat_yields_empty_result() {
    let mut p = Paginator::new(0);
    let full: Vec<PageItem> = (1..=100).rev().map(|id| PageItem::Message(msg(id))).collect();
    p.on_response(PageResponse::Items(full));
    assert!(p.is_in_progress());
    p.on_response(PageResponse::UnknownChat);
    assert!(!p.is_in_progress());
    let batch = p.finish();
    assert!(batch.is_empty());
}

#[test]
fn other_error_keeps_partial_batch() {
    let mut p = Paginator::new(0);
    let full: Vec<PageItem> = (101..=200).rev().map(|id| PageItem::Message(msg(id))).collect();
    p.on_response(PageResponse::Items(full));
    assert!(p.is_in_progress());
    p.on_response(PageResponse::OtherError);
    assert!(!p.is_in_progress());
    let batch = p.finish();
    assert_eq!(batch.len(), 100);
    assert_strictly_ascending_above(&batch, 100);
}

#[test]
fn not_modified_ends_the_walk_with_nothing_new() {
    let mut p = Paginator::new(10);
    p.on_response(PageResponse::NotModified);
    assert!(!p.is_in_progress());
    assert!(p.finish().is_empty());
}

#[test]
fn pages_arriving_newest_first_come_out_sorted() {
    // The page order 502, 501, 503 must come out as 501, 502, 503.
    let mut p = Paginator::new(500);
    let req = p.next_request();
    assert_eq!(req.min_id, 500);
    assert_eq!(req.max_id, 0);
    let page = vec![
        PageItem::Message(msg(502)),
        PageItem::Message(msg(501)),
        PageItem::Message(msg(503)),
    ];
    p.on_response(PageResponse::Items(page));
    let batch = p.finish();
    let ids: Vec<i32> = batch.iter().map(|m| m.msg_id).collect();
    assert_eq!(ids, vec![501, 502, 503]);
}
