use chat_sync::remote_errors::{classify_remote_error, ErrorClass};
use chat_sync::retry::{BASE_DELAY_SECS, MAX_ATTEMPTS, RetryDecision, RetryState};

#[test]
fn rate_limited_on_every_attempt_gives_three_attempts_then_degrade() {
    // A call that is rate-limited every time sleeps 2s, 4s, 8s over
    // exactly three attempts, then degrades instead of failing.
    let mut st = RetryState::new();
    let mut decisions = Vec::new();
    for _ in 0..MAX_ATTEMPTS {
        decisions.push(st.on_failure(ErrorClass::RateLimited));
    }
    assert_eq!(
        decisions,
        vec![
            RetryDecision::Retry { delay_secs: 2 },
            RetryDecision::Retry { delay_secs: 4 },
            RetryDecision::Degrade { delay_secs: 8 },
        ]
    );
}

#[test]
fn base_delay_starts_the_schedule() {
    let mut st = RetryState::new();
    match st.on_failure(ErrorClass::RateLimited) {
        RetryDecision::Retry { delay_secs } => assert_eq!(delay_secs, BASE_DELAY_SECS),
        other => panic!("expected a retry, got {:?}", other),
    }
}

#[test]
fn non_transient_errors_propagate_immediately() {
    let mut st = RetryState::new();
    assert_eq!(st.on_failure(ErrorClass::Other), RetryDecision::Propagate);
    assert_eq!(st.on_failure(ErrorClass::UnknownChat), RetryDecision::Propagate);
    // Propagation consumed no attempts: the rate-limit schedule is intact.
    assert_eq!(
        st.on_failure(ErrorClass::RateLimited),
        RetryDecision::Retry { delay_secs: 2 }
    );
}

#[test]
fn flood_errors_classify_as_rate_limited() {
    assert_eq!(classify_remote_error("FLOOD_WAIT_37"), ErrorClass::RateLimited);
    assert_eq!(classify_remote_error("rpc error: flood wait"), ErrorClass::RateLimited);
}

#[test]
fn invalid_peer_errors_classify_as_unknown_chat() {
    assert_eq!(classify_remote_error("PEER_ID_INVALID"), ErrorClass::UnknownChat);
    assert_eq!(classify_remote_error("CHAT_ID_INVALID"), ErrorClass::UnknownChat);
    assert_eq!(classify_remote_error("CHANNEL_INVALID"), ErrorClass::UnknownChat);
}

#[test]
fn anything_else_classifies_as_other() {
    assert_eq!(classify_remote_error("AUTH_KEY_UNREGISTERED"), ErrorClass::Other);
    assert_eq!(classify_remote_error(""), ErrorClass::Other);
    assert_eq!(classify_remote_error("connection reset by peer"), ErrorClass::Other);
}

#[test]
fn unknown_chat_takes_precedence_over_rate_limit() {
    assert_eq!(
        classify_remote_error("peer_id_invalid after flood"),
        ErrorClass::UnknownChat
    );
}
