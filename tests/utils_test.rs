use esp32_template::error_handler::{RetryPolicy, RetryStep};
use esp32_template::math_utils::{gcd, is_prime, lcm};
use esp32_template::time_utils::{format_uptime, has_elapsed, ms_to_ticks, ticks_to_ms, Timer};

/// Runs `operation` under a fresh policy, recording the sleeps asked for.
fn run_retry(
    max_attempts: u32,
    initial_delay_ms: u32,
    mut operation: impl FnMut() -> Result<i32, String>,
) -> (Result<i32, String>, Vec<u32>) {
    let mut policy = RetryPolicy::new(max_attempts, initial_delay_ms);
    let mut sleeps = Vec::new();
    loop {
        match policy.on_outcome(operation()) {
            RetryStep::Finish(r) => return (r, sleeps),
            RetryStep::SleepThenRetry(d) => sleeps.push(d),
        }
    }
}

#[test]
fn retry_always_failing_makes_all_attempts() {
    let mut calls = 0;
    let (r, sleeps) = run_retry(3, 100, || {
        calls += 1;
        Err(format!("failure {}", calls))
    });
    assert_eq!(calls, 3);
    assert_eq!(r, Err("failure 3".to_string()));
    assert_eq!(sleeps, vec![100, 200]);
}

#[test]
fn retry_stops_at_first_success() {
    let mut calls = 0;
    let (r, sleeps) = run_retry(3, 100, || {
        calls += 1;
        if calls == 2 { Ok(9) } else { Err("no".to_string()) }
    });
    assert_eq!(calls, 2);
    assert_eq!(r, Ok(9));
    assert_eq!(sleeps, vec![100]);
}

#[test]
fn retry_single_attempt_never_sleeps() {
    let mut calls = 0;
    let (r, sleeps) = run_retry(1, 100, || {
        calls += 1;
        Err("no".to_string())
    });
    assert!(r.is_err());
    assert_eq!(calls, 1);
    assert!(sleeps.is_empty());
}

#[test]
fn retry_zero_delay_stays_zero() {
    let (r, sleeps) = run_retry(4, 0, || Err("no".to_string()));
    assert!(r.is_err());
    assert_eq!(sleeps, vec![0, 0, 0]);
}

#[test]
fn backoff_doubles_and_saturates() {
    let mut policy = RetryPolicy::new(5, 0);
    assert_eq!(policy.on_failure(), Some(0));
    assert_eq!(policy.on_failure(), Some(0));
    let mut policy = RetryPolicy::new(4, 3_000_000_000);
    assert_eq!(policy.on_failure(), Some(3_000_000_000));
    assert_eq!(policy.on_failure(), Some(u32::MAX));
    assert_eq!(policy.on_failure(), Some(u32::MAX));
    assert_eq!(policy.on_failure(), None);
}

#[test]
fn timer_counts_down_and_floors_at_zero() {
    let mut timer = Timer::new(100, 1_000);
    assert!(!timer.has_expired(1_000));
    assert_eq!(timer.remaining_ms(1_000), 100);
    assert_eq!(timer.remaining_ms(1_040), 60);
    assert!(!timer.has_expired(1_099));
    assert!(timer.has_expired(1_100));
    assert_eq!(timer.remaining_ms(1_100), 0);
    assert_eq!(timer.remaining_ms(5_000), 0);
    timer.reset(5_000);
    assert_eq!(timer.remaining_ms(5_010), 90);
    timer.reset_with_duration(30, 6_000);
    assert_eq!(timer.duration_ms(), 30);
    assert_eq!(timer.remaining_ms(6_000), 30);
    assert!(timer.has_expired(6_030));
}

#[test]
fn timer_remaining_never_increases() {
    let timer = Timer::new(50, 10);
    let mut previous = timer.remaining_ms(10);
    for now in 10..200u64 {
        let r = timer.remaining_ms(now);
        assert!(r <= previous);
        if timer.has_expired(now) {
            assert_eq!(r, 0);
        }
        previous = r;
    }
}

#[test]
fn elapsed_check() {
    assert!(has_elapsed(100, 50, 150));
    assert!(!has_elapsed(100, 50, 149));
    assert!(!has_elapsed(u64::MAX, 1, u64::MAX));
}

#[test]
fn uptime_formatting() {
    assert_eq!(format_uptime(0), "00:00:00");
    assert_eq!(format_uptime(3_725), "01:02:05");
    assert_eq!(format_uptime(86_399), "23:59:59");
    assert_eq!(format_uptime(360_000), "100:00:00");
}

#[test]
fn integer_math() {
    assert_eq!(gcd(48, 18), 6);
    assert_eq!(gcd(0, 7), 7);
    assert_eq!(lcm(4, 6), 12);
    assert_eq!(lcm(0, 5), 0);
    let primes: Vec<u32> = (0..30).filter(|&n| is_prime(n)).collect();
    assert_eq!(primes, vec![2, 3, 5, 7, 11, 13, 17, 19, 23, 29]);
    assert!(is_prime(4_294_967_291));
    assert!(!is_prime(4_294_967_295));
    assert!(!is_prime(25));
    assert!(!is_prime(49));
}

#[test]
fn tick_conversions() {
    assert_eq!(ms_to_ticks(1000, 100), 100);
    assert_eq!(ms_to_ticks(15, 100), 1);
    assert_eq!(ticks_to_ms(3, 100), 30);
    assert_eq!(ticks_to_ms(7, 1000), 7);
}
