use std::cell::{Cell, RefCell};
use vxug_scraper::retry::{
    attempt_succeeded, backoff_pause, with_retry, AttemptReport, Backoff, Pause, Retry,
    RetryPolicy, RetryStatus, Verdict,
};

fn run_with<F: FnMut(u32) -> bool>(policy: RetryPolicy, mut transport: F) -> (Retry, Vec<Pause>) {
    let mut retry = Retry::new(policy);
    let mut pauses = Vec::new();
    while let Some(attempt) = retry.begin_attempt() {
        match retry.end_attempt(transport(attempt)) {
            Verdict::RetryAfter { pause } => pauses.push(pause),
            Verdict::Done | Verdict::GiveUp => break,
            Verdict::NotInFlight => unreachable!(),
        }
    }
    (retry, pauses)
}

#[test]
fn a_transport_that_always_fails_is_invoked_three_times() {
    let mut invocations = 0;
    let (retry, pauses) = run_with(Retry::download_policy(), |_| {
        invocations += 1;
        false
    });
    assert_eq!(invocations, 3);
    assert_eq!(retry.attempts_made(), 3);
    assert_eq!(retry.status(), RetryStatus::Exhausted);
    assert_eq!(pauses, vec![Pause::Sleep { millis: 500 }, Pause::Sleep { millis: 1000 }]);
}

#[test]
fn no_attempt_follows_the_last_failure() {
    let (mut retry, _) = run_with(Retry::download_policy(), |_| false);
    assert_eq!(retry.begin_attempt(), None);
    assert_eq!(retry.end_attempt(true), Verdict::NotInFlight);
    assert_eq!(retry.status(), RetryStatus::Exhausted);
    assert_eq!(retry.attempts_made(), 3);
}

#[test]
fn the_first_success_ends_the_work() {
    let mut seen = Vec::new();
    let (retry, pauses) = run_with(Retry::download_policy(), |attempt| {
        seen.push(attempt);
        attempt == 2
    });
    assert_eq!(seen, vec![1, 2]);
    assert_eq!(retry.status(), RetryStatus::Succeeded);
    assert_eq!(pauses, vec![Pause::Sleep { millis: 500 }]);
}

#[test]
fn success_at_the_last_attempt_is_success() {
    let (retry, _) = run_with(Retry::download_policy(), |attempt| attempt == 3);
    assert_eq!(retry.status(), RetryStatus::Succeeded);
    assert_eq!(retry.attempts_made(), 3);
}

#[test]
fn a_policy_of_no_attempts_fails_at_once() {
    let mut invocations = 0;
    let policy = RetryPolicy { max_attempts: 0, backoff: Backoff::Fixed { millis: 1 } };
    let (retry, _) = run_with(policy, |_| {
        invocations += 1;
        true
    });
    assert_eq!(invocations, 0);
    assert_eq!(retry.status(), RetryStatus::Exhausted);
}

#[test]
fn a_policy_of_five_attempts_gives_five() {
    let mut invocations = 0;
    let policy = RetryPolicy { max_attempts: 5, backoff: Backoff::Fixed { millis: 0 } };
    let (retry, pauses) = run_with(policy, |_| {
        invocations += 1;
        false
    });
    assert_eq!(invocations, 5);
    assert_eq!(retry.attempts_made(), 5);
    assert_eq!(pauses, vec![Pause::Sleep { millis: 0 }; 4]);
}

#[test]
fn only_one_attempt_is_in_flight() {
    let mut retry = Retry::new(Retry::attended_policy());
    assert_eq!(retry.status(), RetryStatus::Ready);
    assert_eq!(retry.begin_attempt(), Some(1));
    assert_eq!(retry.status(), RetryStatus::InFlight);
    assert_eq!(retry.begin_attempt(), None);
    assert_eq!(retry.attempts_made(), 1);
    assert_eq!(
        retry.end_attempt(false),
        Verdict::RetryAfter { pause: Pause::AwaitOperator { countdown_secs: 10 } }
    );
    assert_eq!(retry.begin_attempt(), Some(2));
}

#[test]
fn the_pause_follows_the_strategy() {
    assert_eq!(backoff_pause(Backoff::Fixed { millis: 250 }, 1), Pause::Sleep { millis: 250 });
    assert_eq!(backoff_pause(Backoff::Fixed { millis: 250 }, 9), Pause::Sleep { millis: 250 });
    assert_eq!(backoff_pause(Backoff::Linear { step_millis: 500 }, 1), Pause::Sleep { millis: 500 });
    assert_eq!(backoff_pause(Backoff::Linear { step_millis: 500 }, 2), Pause::Sleep { millis: 1000 });
    assert_eq!(
        backoff_pause(Backoff::Linear { step_millis: u64::MAX }, 2),
        Pause::Sleep { millis: u64::MAX }
    );
    assert_eq!(
        backoff_pause(Backoff::Interactive { countdown_secs: 10 }, 2),
        Pause::AwaitOperator { countdown_secs: 10 }
    );
    assert_eq!(
        backoff_pause(Backoff::InteractiveOnce { countdown_secs: 10 }, 1),
        Pause::AwaitOperator { countdown_secs: 10 }
    );
    assert_eq!(
        backoff_pause(Backoff::InteractiveOnce { countdown_secs: 10 }, 2),
        Pause::Countdown { secs: 10 }
    );
}

#[test]
fn only_a_read_body_of_a_2xx_response_is_success() {
    assert!(attempt_succeeded(AttemptReport::Response { status: 200, body_read: true }));
    assert!(attempt_succeeded(AttemptReport::Response { status: 299, body_read: true }));
    assert!(!attempt_succeeded(AttemptReport::Response { status: 200, body_read: false }));
    assert!(!attempt_succeeded(AttemptReport::Response { status: 199, body_read: true }));
    assert!(!attempt_succeeded(AttemptReport::Response { status: 300, body_read: true }));
    assert!(!attempt_succeeded(AttemptReport::Response { status: 404, body_read: true }));
    assert!(!attempt_succeeded(AttemptReport::Response { status: 429, body_read: true }));
    assert!(!attempt_succeeded(AttemptReport::Response { status: 503, body_read: true }));
    assert!(!attempt_succeeded(AttemptReport::NoResponse));
    assert!(attempt_succeeded(AttemptReport::ExternalExit { started: true, success: true }));
    assert!(!attempt_succeeded(AttemptReport::ExternalExit { started: true, success: false }));
    assert!(!attempt_succeeded(AttemptReport::ExternalExit { started: false, success: true }));
}

#[test]
fn a_failed_status_is_retried_like_a_lost_connection() {
    let mut retry = Retry::new(Retry::download_policy());
    assert_eq!(retry.begin_attempt(), Some(1));
    assert_eq!(
        retry.end_attempt_with(AttemptReport::Response { status: 429, body_read: true }),
        Verdict::RetryAfter { pause: Pause::Sleep { millis: 500 } }
    );
    assert_eq!(retry.begin_attempt(), Some(2));
    assert_eq!(
        retry.end_attempt_with(AttemptReport::NoResponse),
        Verdict::RetryAfter { pause: Pause::Sleep { millis: 1000 } }
    );
    assert_eq!(retry.begin_attempt(), Some(3));
    assert_eq!(
        retry.end_attempt_with(AttemptReport::Response { status: 200, body_read: true }),
        Verdict::Done
    );
}

#[test]
fn with_retry_invokes_a_failing_operation_exactly_three_times() {
    let invocations = Cell::new(0u32);
    let pauses = RefCell::new(Vec::new());
    let result: Option<Result<(), u32>> = with_retry(
        Retry::download_policy(),
        |attempt| {
            invocations.set(invocations.get() + 1);
            Err(attempt)
        },
        |pause| pauses.borrow_mut().push(pause),
    );
    assert_eq!(result, Some(Err(3)));
    assert_eq!(invocations.get(), 3);
    assert_eq!(
        pauses.into_inner(),
        vec![Pause::Sleep { millis: 500 }, Pause::Sleep { millis: 1000 }]
    );
}

#[test]
fn with_retry_returns_the_first_success() {
    let invocations = Cell::new(0u32);
    let result: Option<Result<&str, &str>> = with_retry(
        Retry::attended_policy(),
        |attempt| {
            invocations.set(invocations.get() + 1);
            if attempt == 2 {
                Ok("body")
            } else {
                Err("rate limited")
            }
        },
        |pause| assert_eq!(pause, Pause::AwaitOperator { countdown_secs: 10 }),
    );
    assert_eq!(result, Some(Ok("body")));
    assert_eq!(invocations.get(), 2);
}

#[test]
fn with_retry_does_nothing_where_no_attempt_is_allowed() {
    let invocations = Cell::new(0u32);
    let policy = RetryPolicy { max_attempts: 0, backoff: Backoff::Fixed { millis: 0 } };
    let result: Option<Result<(), ()>> = with_retry(
        policy,
        |_| {
            invocations.set(invocations.get() + 1);
            Ok(())
        },
        |_| {},
    );
    assert_eq!(result, None);
    assert_eq!(invocations.get(), 0);
}

#[test]
fn a_failure_of_the_local_file_ends_the_work_at_once() {
    assert!(!attempt_succeeded(AttemptReport::LocalFileFailed));
    let mut retry = Retry::new(Retry::download_policy());
    assert_eq!(retry.begin_attempt(), Some(1));
    assert_eq!(retry.end_attempt_with(AttemptReport::LocalFileFailed), Verdict::GiveUp);
    assert_eq!(retry.status(), RetryStatus::Abandoned);
    assert_eq!(retry.attempts_made(), 1);
    assert_eq!(retry.begin_attempt(), None);
    assert_eq!(retry.end_attempt_with(AttemptReport::LocalFileFailed), Verdict::NotInFlight);
    assert_eq!(retry.status(), RetryStatus::Abandoned);
}
