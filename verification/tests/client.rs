use playlist_studio::spotify::client::{
    clamp_description, next_step, search_limit, status_error, truncate_chars, write_chunks,
    ApiError, NextStep, RetryBudget,
};

#[test]
fn retry_policy_steps() {
    let b = RetryBudget::new();
    assert_eq!(next_step(200, b, None).0, NextStep::Done);
    let (s, b1) = next_step(401, b, None);
    assert_eq!(s, NextStep::RefreshAndRetry);
    assert_eq!(next_step(401, b1, None).0, NextStep::Fail);
    assert_eq!(next_step(429, b, Some(7)).0, NextStep::WaitAndRetry(8));
    assert_eq!(next_step(429, b, None).0, NextStep::WaitAndRetry(3));
    assert_eq!(next_step(429, b, Some(500)).0, NextStep::WaitAndRetry(121));
    assert_eq!(next_step(503, b, None).0, NextStep::PauseAndRetry);
    assert_eq!(next_step(404, b, None).0, NextStep::Fail);
}

#[test]
fn retries_run_out() {
    let mut b = RetryBudget::new();
    let mut waits = 0;
    loop {
        let (s, nb) = next_step(429, b, Some(0));
        if s == NextStep::Fail {
            break;
        }
        waits += 1;
        b = nb;
    }
    assert_eq!(waits, 5);
    let mut b = RetryBudget::new();
    let mut pauses = 0;
    while let (NextStep::PauseAndRetry, nb) = next_step(500, b, None) {
        pauses += 1;
        b = nb;
    }
    assert_eq!(pauses, 2);
}

#[test]
fn forbidden_answers_explain_development_mode() {
    match status_error(403, Some("Forbidden"), "") {
        ApiError::Status { status, message } => {
            assert_eq!(status, 403);
            assert!(message.starts_with("Forbidden — hints: development-mode apps"));
        }
        _ => panic!("expected a status error"),
    }
    match status_error(404, None, &"y".repeat(400)) {
        ApiError::Status { message, .. } => assert_eq!(message.chars().count(), 300),
        _ => panic!("expected a status error"),
    }
}

#[test]
fn text_limits() {
    assert_eq!(truncate_chars("héllo", 2), "hé");
    assert_eq!(clamp_description(&"d".repeat(301)).len(), 300);
    assert_eq!(search_limit(0), 1);
    assert_eq!(search_limit(50), 10);
    assert_eq!(search_limit(5), 5);
}

#[test]
fn writes_are_chunked_by_one_hundred() {
    assert_eq!(write_chunks(0), vec![]);
    assert_eq!(write_chunks(100), vec![(0, 100)]);
    assert_eq!(write_chunks(250), vec![(0, 100), (100, 200), (200, 250)]);
}
