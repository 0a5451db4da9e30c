use rust_data_pipeline::ingestion::{Attempt, RetryState, RetryStep, RETRY_WAIT_SECONDS};

fn attempts_until_given_up(max_attempts: usize) -> usize {
    let mut state = RetryState::new(max_attempts);
    loop {
        match state.after(Attempt::Failed) {
            RetryStep::TryAgain { state: next, wait_seconds } => {
                assert_eq!(wait_seconds, 1);
                assert_eq!(next.failures(), state.failures() + 1);
                assert_eq!(next.max_attempts(), max_attempts);
                state = next;
            },
            RetryStep::GiveUp { attempts } => return attempts,
            RetryStep::Finish => panic!("a failure finished the work"),
        }
    }
}

#[test]
fn three_failures_exhaust_a_limit_of_three() {
    assert_eq!(attempts_until_given_up(3), 3);
}

#[test]
fn a_limit_of_one_allows_one_attempt() {
    assert_eq!(attempts_until_given_up(1), 1);
}

#[test]
fn a_limit_of_none_still_allows_one_attempt() {
    assert_eq!(attempts_until_given_up(0), 1);
}

#[test]
fn a_success_finishes_at_once() {
    let state = RetryState::new(3);
    assert_eq!(state.failures(), 0);
    assert!(matches!(state.after(Attempt::Succeeded), RetryStep::Finish));
}

#[test]
fn a_success_after_a_failure_finishes() {
    let state = RetryState::new(3);
    let next = match state.after(Attempt::Failed) {
        RetryStep::TryAgain { state, .. } => state,
        other => panic!("no other attempt: {:?}", other),
    };
    assert_eq!(next.failures(), 1);
    assert!(matches!(next.after(Attempt::Succeeded), RetryStep::Finish));
}

#[test]
fn the_wait_is_one_second() {
    assert_eq!(RETRY_WAIT_SECONDS, 1);
}
