use slova::retry::{
    cancelled_during_retry, classify_error, jittered_delay, next_retry_step, BackoffCalculator, ErrorClass,
    RetryPolicy, RetryStep,
};
use slova::types::AppErrorView;

#[test]
fn test_error_classification_retryable() {
    let error = AppErrorView::rate_limit(Some(60));
    assert_eq!(classify_error(&error), ErrorClass::Retryable);
}

#[test]
fn test_error_classification_permanent() {
    let error = AppErrorView::invalid_file("test");
    assert_eq!(classify_error(&error), ErrorClass::Permanent);
}

#[test]
fn test_backoff_calculator() {
    let calc = BackoffCalculator::new(100, 30_000);

    // Attempt 0: ~100ms
    let delay0 = calc.calculate(0);
    assert!(delay0 >= 90 && delay0 <= 110);

    // Attempt 1: ~200ms
    let delay1 = calc.calculate(1);
    assert!(delay1 >= 180 && delay1 <= 220);

    // Attempt 2: ~400ms
    let delay2 = calc.calculate(2);
    assert!(delay2 >= 360 && delay2 <= 440);

    // Capped at max (plus jitter)
    let delay10 = calc.calculate(10);
    assert!(delay10 <= 33_000);
}

#[test]
fn test_retry_policy_should_retry() {
    let policy = RetryPolicy::default();

    let retryable_error = AppErrorView::rate_limit(Some(60));
    assert!(policy.should_retry(0, &retryable_error));
    assert!(policy.should_retry(1, &retryable_error));
    assert!(policy.should_retry(2, &retryable_error));
    assert!(!policy.should_retry(3, &retryable_error)); // Out of attempts (3 max)

    let permanent_error = AppErrorView::invalid_file("test");
    assert!(!policy.should_retry(0, &permanent_error)); // Permanent error
}

#[test]
fn test_retry_policy_delay() {
    let policy = RetryPolicy::default();

    let delay0 = policy.delay_before_retry(0);
    let delay1 = policy.delay_before_retry(1);

    // delay1 should be roughly 2x delay0
    assert!(delay1 > delay0);
}

#[test]
fn base_delays_double_up_to_the_cap() {
    let calc = BackoffCalculator::new(100, 30_000);
    let bases: Vec<u64> = (0..10).map(|a| calc.base_delay_ms(a)).collect();
    assert_eq!(bases, vec![100, 200, 400, 800, 1600, 3200, 6400, 12800, 25600, 30000]);
    // The attempt counts as a signed exponent, so the largest reads as -1.
    assert_eq!(calc.base_delay_ms(u32::MAX), 50);
    assert_eq!(BackoffCalculator::default().initial_delay_ms, 100);
    assert_eq!(BackoffCalculator::default().max_delay_ms, 30_000);
    for a in 0..40 {
        let d = calc.calculate(a);
        let b = calc.base_delay_ms(a);
        assert!(d >= b * 9 / 10 && d <= b * 11 / 10);
    }
}

#[test]
fn codes_that_are_retried() {
    for code in ["RATE_LIMIT", "NETWORK_ERROR", "TIMEOUT"] {
        assert_eq!(classify_error(&AppErrorView::new(code, "x")), ErrorClass::Retryable);
    }
    for code in ["AUTH_FAILED", "INTERNAL_ERROR", "CANCELLED"] {
        assert_eq!(classify_error(&AppErrorView::new(code, "x")), ErrorClass::Permanent);
    }
}

#[test]
fn retry_loop_steps() {
    let policy = RetryPolicy::new(2);
    assert!(matches!(next_retry_step(&policy, 0, Ok(())), RetryStep::Finish(Ok(()))));
    match next_retry_step(&policy, 0, Err(AppErrorView::network_error("x"))) {
        RetryStep::Retry { attempt, delay_ms } => {
            assert_eq!(attempt, 1);
            assert!((90..=110).contains(&delay_ms));
        }
        other => panic!("{:?}", other),
    }
    match next_retry_step(&policy, 2, Err(AppErrorView::network_error("x"))) {
        RetryStep::Finish(Err(e)) => assert_eq!(e.code, "NETWORK_ERROR"),
        other => panic!("{:?}", other),
    }
    match next_retry_step(&policy, 0, Err(AppErrorView::auth_failed())) {
        RetryStep::Finish(Err(e)) => assert_eq!(e.code, "AUTH_FAILED"),
        other => panic!("{:?}", other),
    }
    let e = cancelled_during_retry();
    assert_eq!((e.code.as_str(), e.message.as_str()), ("CANCELLED", "Job cancelled during retry wait"));
}

#[test]
fn failing_job_runs_max_attempts_times() {
    let policy = RetryPolicy::default();
    let mut attempt: u32 = 0;
    let mut runs = 0;
    loop {
        runs += 1;
        match next_retry_step(&policy, attempt, Err(AppErrorView::rate_limit(Some(60)))) {
            RetryStep::Finish(Err(e)) => {
                assert_eq!(e.code, "RATE_LIMIT");
                break;
            }
            RetryStep::Retry { attempt: next, .. } => attempt = next,
            other => panic!("{:?}", other),
        }
    }
    assert_eq!(runs, 3);
    // A policy of one run never retries.
    assert!(matches!(
        next_retry_step(&RetryPolicy::new(1), 0, Err(AppErrorView::network_error("x"))),
        RetryStep::Finish(Err(_))
    ));
    assert!(matches!(
        next_retry_step(&policy, u32::MAX, Err(AppErrorView::network_error("x"))),
        RetryStep::Finish(Err(_))
    ));
}

#[test]
fn jitter_scales_in_millionths() {
    assert_eq!(jittered_delay(1000, 900_000), 900);
    assert_eq!(jittered_delay(1000, 1_099_999), 1099);
    assert_eq!(jittered_delay(u64::MAX, 1_099_999), u64::MAX);
    assert_eq!(jittered_delay(0, 1_000_000), 0);
}
