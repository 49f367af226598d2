use twapi_v2::error::Error;
use twapi_v2::rate_limit::RateLimit;
use twapi_v2::retry::{Next, RetryPolicy};

/// Runs the attempts one after another as a caller would, without waiting.
fn run(policy: &RetryPolicy, mut attempts: Vec<Result<u32, Error>>) -> (Result<u32, Error>, u32, Vec<u64>) {
    attempts.reverse();
    let mut made = 0;
    let mut waits = Vec::new();
    loop {
        let outcome = attempts.pop().expect("the run asked for more attempts than were given");
        made += 1;
        match policy.on_outcome(made, outcome, 1_000, 0) {
            Next::Done(result) => return (result, made - 1, waits),
            Next::Wait { delay_ms } => waits.push(delay_ms),
        }
    }
}

fn api(status: u16, reset: Option<u64>) -> Error {
    Error::Api {
        status,
        errors: Vec::new(),
        rate_limit: reset.map(|reset| RateLimit { limit: 15, remaining: 0, reset }),
    }
}

#[test]
fn three_transport_errors_then_success() {
    let policy = RetryPolicy::new(5);
    let (result, retries, waits) = run(
        &policy,
        vec![
            Err(Error::transport("reset")),
            Err(Error::transport("reset")),
            Err(Error::transport("timeout")),
            Ok(7),
            Ok(8),
        ],
    );
    assert_eq!(result.unwrap(), 7);
    assert_eq!(retries, 3);
    assert_eq!(waits, vec![250, 500, 1000]);
}

#[test]
fn retries_end_with_the_last_error() {
    let policy = RetryPolicy::new(3);
    let (result, retries, _) = run(
        &policy,
        vec![Err(Error::transport("a")), Err(Error::transport("b")), Err(Error::transport("c")), Ok(1)],
    );
    match result {
        Err(Error::Transport(cause)) => assert_eq!(cause, "c"),
        other => panic!("{:?}", other),
    }
    assert_eq!(retries, 2);
}

#[test]
fn decode_errors_are_never_retried() {
    let policy = RetryPolicy::new(5);
    let (result, retries, _) = run(&policy, vec![Err(Error::Decode("<html>".to_string())), Ok(1)]);
    assert!(matches!(result, Err(Error::Decode(_))));
    assert_eq!(retries, 0);
    let (result, retries, _) = run(&policy, vec![Err(Error::Signing("x".to_string())), Ok(1)]);
    assert!(matches!(result, Err(Error::Signing(_))));
    assert_eq!(retries, 0);
}

#[test]
fn api_errors_are_retried_by_status() {
    let policy = RetryPolicy::new(5);
    assert!(policy.is_retryable(&api(429, None)));
    assert!(policy.is_retryable(&api(500, None)));
    assert!(policy.is_retryable(&api(503, None)));
    assert!(policy.is_retryable(&api(599, None)));
    assert!(!policy.is_retryable(&api(400, None)));
    assert!(!policy.is_retryable(&api(404, None)));
    assert!(!policy.is_retryable(&api(600, None)));
    assert!(policy.is_retryable(&Error::transport("x")));
    assert!(!policy.is_retryable(&Error::Decode("x".to_string())));

    let mut strict = RetryPolicy::new(5);
    strict.retry_server_errors = false;
    strict.retry_statuses = vec![503, 504];
    assert!(!strict.is_retryable(&api(429, None)));
    assert!(!strict.is_retryable(&api(500, None)));
    assert!(strict.is_retryable(&api(503, None)));
    assert!(strict.is_retryable(&api(504, None)));

    let (result, retries, _) = run(&policy, vec![Err(api(503, None)), Err(api(404, None)), Ok(1)]);
    assert_eq!(result.unwrap_err().status(), Some(404));
    assert_eq!(retries, 1);
}

#[test]
fn a_single_attempt_is_never_retried() {
    for max_attempts in [0, 1] {
        let policy = RetryPolicy::new(max_attempts);
        let (result, retries, _) = run(&policy, vec![Err(Error::transport("a")), Ok(1)]);
        assert!(result.is_err());
        assert_eq!(retries, 0);
    }
}

#[test]
fn backoff_doubles_up_to_the_longest_wait() {
    let policy = RetryPolicy::new(10);
    assert_eq!(policy.backoff(0), 500);
    assert_eq!(policy.backoff(1), 1_000);
    assert_eq!(policy.backoff(2), 2_000);
    assert_eq!(policy.backoff(6), 32_000);
    assert_eq!(policy.backoff(7), 60_000);
    assert_eq!(policy.backoff(8), 60_000);
    assert_eq!(policy.backoff(u32::MAX), 60_000);

    let mut odd = RetryPolicy::new(10);
    odd.base_delay_ms = 3;
    odd.max_delay_ms = 11;
    assert_eq!((0..5).map(|k| odd.backoff(k)).collect::<Vec<u64>>(), vec![3, 6, 11, 11, 11]);
    odd.base_delay_ms = 0;
    assert_eq!(odd.backoff(u32::MAX), 0);
    odd.base_delay_ms = 100;
    assert_eq!(odd.backoff(0), 11);
    odd.base_delay_ms = u64::MAX;
    odd.max_delay_ms = u64::MAX;
    assert_eq!(odd.backoff(3), u64::MAX);
}

#[test]
fn delay_has_jitter_between_half_and_whole() {
    let policy = RetryPolicy::new(10);
    let error = Error::transport("x");
    assert_eq!(policy.delay(1, &error, 0, 0), 250);
    assert_eq!(policy.delay(1, &error, 0, 250), 500);
    assert_eq!(policy.delay(1, &error, 0, 251), 250);
    assert_eq!(policy.delay(1, &error, 0, 100), 350);
    assert_eq!(policy.delay(3, &error, 0, 7), 1_007);
    assert_eq!(policy.delay(0, &error, 0, 0), 250);
    for jitter in [0u64, 1, 17, 999, u64::MAX] {
        for attempts in 1..12 {
            let whole = policy.backoff(attempts - 1);
            let wait = policy.delay(attempts, &error, 0, jitter);
            assert!(whole / 2 <= wait && wait <= whole);
        }
    }
}

#[test]
fn too_many_requests_waits_for_the_reset() {
    let policy = RetryPolicy::new(5);
    assert_eq!(policy.delay(1, &api(429, Some(1_030)), 1_000, 0), 30_000);
    // Without a time of renewal, or with one that has passed, the wait is the usual one.
    assert_eq!(policy.delay(1, &api(429, None), 1_000, 0), 250);
    assert_eq!(policy.delay(1, &api(429, Some(1_000)), 1_000, 0), 250);
    assert_eq!(policy.delay(1, &api(429, Some(999)), 1_000, 0), 250);
    // Only the status 429 waits for the renewal.
    assert_eq!(policy.delay(1, &api(503, Some(1_030)), 1_000, 0), 250);
    assert_eq!(policy.delay(1, &api(429, Some(u64::MAX)), 0, 0), u64::MAX);

    let mut blind = RetryPolicy::new(5);
    blind.wait_for_reset = false;
    assert_eq!(blind.delay(1, &api(429, Some(1_030)), 1_000, 0), 250);

    let (result, retries, waits) = run(&policy, vec![Err(api(429, Some(1_002))), Ok(5)]);
    assert_eq!(result.unwrap(), 5);
    assert_eq!(retries, 1);
    assert_eq!(waits, vec![2_000]);
}
