use mnemosyne_rs::{DelaySchedule, Duration, Expiration, PollStrategy, Process, ProcessStatus, Timestamp};

#[test]
fn test_expiration_is_expired_past() {
    let past_time = Timestamp::now().saturating_sub(Duration::from_secs(10));
    let expiration = Expiration::new(past_time);
    assert!(expiration.is_expired());
}

#[test]
fn test_expiration_is_expired_future() {
    let future_time = Timestamp::now().saturating_add(Duration::from_secs(10));
    let expiration = Expiration::new(future_time);
    assert!(!expiration.is_expired());
}

#[test]
fn test_expiration_from_duration() {
    let expiration = Expiration::from_duration(Duration::from_secs(1));
    // Should not be expired immediately
    assert!(!expiration.is_expired());
}

#[test]
fn test_process_is_completed() {
    let process: Process<&str, &str, String> = Process::new("id", "processor", Timestamp::now());
    assert!(!process.is_completed());

    let mut completed_process = process.clone();
    completed_process.completed_at = Some(Timestamp::now());
    assert!(completed_process.is_completed());
}

#[test]
fn test_process_is_expired_no_expiration() {
    let process: Process<&str, &str, String> = Process::new("id", "processor", Timestamp::now());
    assert!(!process.is_expired());
}

#[test]
fn test_process_is_expired_past() {
    let mut process: Process<&str, &str, String> =
        Process::new("id", "processor", Timestamp::now());
    let past_time = Timestamp::now().saturating_sub(Duration::from_secs(10));
    process.expires_on = Some(Expiration::new(past_time));
    assert!(process.is_expired());
}

#[test]
fn test_process_is_expired_future() {
    let mut process: Process<&str, &str, String> =
        Process::new("id", "processor", Timestamp::now());
    let future_time = Timestamp::now().saturating_add(Duration::from_secs(10));
    process.expires_on = Some(Expiration::new(future_time));
    assert!(!process.is_expired());
}

#[test]
fn test_process_is_timeout_completed() {
    let mut process: Process<&str, &str, String> =
        Process::new("id", "processor", Timestamp::now());
    process.completed_at = Some(Timestamp::now());
    // Completed processes should never timeout
    assert!(!process.is_timeout(Duration::from_secs(0)));
}

#[test]
fn test_process_is_timeout_not_exceeded() {
    let process: Process<&str, &str, String> = Process::new("id", "processor", Timestamp::now());
    let max_processing_time = Duration::from_secs(10);
    assert!(!process.is_timeout(max_processing_time));
}

#[test]
fn test_process_is_timeout_exceeded() {
    let past_time = Timestamp::now().saturating_sub(Duration::from_secs(20));
    let process: Process<&str, &str, String> = Process::new("id", "processor", past_time);
    let max_processing_time = Duration::from_secs(10);
    assert!(process.is_timeout(max_processing_time));
}

#[test]
fn test_process_status_running() {
    let process: Process<&str, &str, String> = Process::new("id", "processor", Timestamp::now());
    let status = process.status(Duration::from_secs(60));
    assert_eq!(status, ProcessStatus::Running);
}

#[test]
fn test_process_status_completed() {
    let mut process = Process::new("id", "processor", Timestamp::now());
    process.completed_at = Some(Timestamp::now());
    process.memoized = Some("result".to_string());

    let status = process.status(Duration::from_secs(60));
    match status {
        ProcessStatus::Completed(value) => assert_eq!(*value, "result"),
        _ => panic!("Expected Completed status"),
    }
}

#[test]
fn test_process_status_expired() {
    let mut process: Process<&str, &str, String> =
        Process::new("id", "processor", Timestamp::now());
    let past_time = Timestamp::now().saturating_sub(Duration::from_secs(10));
    process.expires_on = Some(Expiration::new(past_time));

    let status = process.status(Duration::from_secs(60));
    assert_eq!(status, ProcessStatus::Expired);
}

#[test]
fn test_process_status_timeout() {
    let past_time = Timestamp::now().saturating_sub(Duration::from_secs(20));
    let process: Process<&str, &str, String> = Process::new("id", "processor", past_time);

    let status = process.status(Duration::from_secs(10));
    assert_eq!(status, ProcessStatus::Timeout);
}

#[test]
fn test_process_status_priority_order() {
    // A process that is both expired and timed out reports Expired, which
    // ranks above Timeout.
    let past_time = Timestamp::now().saturating_sub(Duration::from_secs(20));
    let mut process: Process<&str, &str, String> = Process::new("id", "processor", past_time);

    let past_expiration = Timestamp::now().saturating_sub(Duration::from_secs(10));
    process.expires_on = Some(Expiration::new(past_expiration));

    let status = process.status(Duration::from_secs(10));
    assert_eq!(status, ProcessStatus::Expired);
}

#[test]
fn test_process_status_completed_overrides_expired() {
    // A completed process with a memoized value reports Completed even once
    // it has expired.
    let mut process = Process::new("id", "processor", Timestamp::now());
    process.completed_at = Some(Timestamp::now());
    process.memoized = Some("result".to_string());

    let past_time = Timestamp::now().saturating_sub(Duration::from_secs(10));
    process.expires_on = Some(Expiration::new(past_time));

    let status = process.status(Duration::from_secs(60));
    match status {
        ProcessStatus::Completed(value) => assert_eq!(*value, "result"),
        _ => panic!("Expected Completed status to override Expired"),
    }
}

#[test]
fn test_poll_strategy_linear_max_duration() {
    let strategy = PollStrategy::linear(Duration::from_secs(1), Duration::from_secs(10)).unwrap();
    assert_eq!(strategy.max_duration(), Duration::from_secs(10));
}

#[test]
fn test_poll_strategy_backoff_max_duration() {
    // A multiplier of 2.0, in thousandths.
    let strategy =
        PollStrategy::backoff(Duration::from_secs(1), 2000, Duration::from_secs(30)).unwrap();
    assert_eq!(strategy.max_duration(), Duration::from_secs(30));
}

// ---- classifier at fixed instants ----

fn at_secs(s: u64) -> Timestamp {
    Timestamp::from_secs(s)
}

#[test]
fn status_at_fixed_instants() {
    let mut p: Process<&str, &str, String> = Process::new("id", "scope", at_secs(100));
    assert_eq!(p.status_at(at_secs(109), Duration::from_secs(10)), ProcessStatus::Running);
    assert_eq!(p.status_at(at_secs(110), Duration::from_secs(10)), ProcessStatus::Timeout);
    // A clock that reads before the start never times a record out.
    assert_eq!(p.status_at(at_secs(50), Duration::from_secs(0)), ProcessStatus::Running);
    p.expires_on = Some(Expiration::new(at_secs(105)));
    assert_eq!(p.status_at(at_secs(104), Duration::from_secs(60)), ProcessStatus::Running);
    assert_eq!(p.status_at(at_secs(105), Duration::from_secs(60)), ProcessStatus::Expired);
    p.completed_at = Some(at_secs(103));
    // Completed without a memoized value: neither completed nor timed out.
    assert_eq!(p.status_at(at_secs(104), Duration::from_secs(1)), ProcessStatus::Running);
    p.memoized = Some("v".to_string());
    let v = "v".to_string();
    assert_eq!(p.status_at(at_secs(500), Duration::from_secs(1)), ProcessStatus::Completed(&v));
}

#[test]
fn classifier_is_pure() {
    let p: Process<&str, &str, String> = Process::new("a", "p", at_secs(100));
    let q: Process<&str, &str, String> = Process::new("b", "q", at_secs(100));
    for now in [50u64, 100, 105, 110, 200] {
        assert_eq!(
            p.status_at(at_secs(now), Duration::from_secs(10)),
            q.status_at(at_secs(now), Duration::from_secs(10))
        );
        assert_eq!(
            p.status_at(at_secs(now), Duration::from_secs(10)),
            p.status_at(at_secs(now), Duration::from_secs(10))
        );
    }
}

#[test]
fn zero_processing_time_times_out_at_once() {
    let p: Process<&str, &str, String> = Process::new("id", "scope", at_secs(100));
    assert_eq!(p.status_at(at_secs(100), Duration::zero()), ProcessStatus::Timeout);
    assert!(p.is_timeout_at(at_secs(100), Duration::zero()));
}

#[test]
fn expiration_from_duration_at_adds() {
    let e = Expiration::from_duration_at(at_secs(10), Duration::from_millis(1500));
    assert_eq!(e.instant, Timestamp::from_millis(11_500));
    assert!(!e.is_expired_at(Timestamp::from_millis(11_499)));
    assert!(e.is_expired_at(Timestamp::from_millis(11_500)));
    let far = Expiration::from_duration_at(Timestamp::from_nanos(i64::MAX - 1), Duration::from_secs(1));
    assert_eq!(far.instant, Timestamp::from_nanos(i64::MAX));
}

// ---- time ----

#[test]
fn time_conversions() {
    assert_eq!(Duration::from_secs(3).as_nanos(), 3_000_000_000);
    assert_eq!(Duration::from_millis(50).as_millis(), 50);
    assert_eq!(Duration::from_nanos(1_999_999).as_millis(), 1);
    let t = Timestamp::from_millis(1_700_000_000_123);
    assert_eq!(t.millis_since_epoch(), Ok(1_700_000_000_123));
    assert_eq!(t.secs_since_epoch(), Ok(1_700_000_000));
    assert_eq!(t.duration_since(Timestamp::from_secs(1_700_000_000)), Some(Duration::from_millis(123)));
    assert_eq!(Timestamp::from_secs(1).duration_since(Timestamp::from_secs(2)), None);
    assert!(matches!(Timestamp::from_nanos(-1).millis_since_epoch(), Err(mnemosyne_rs::Error::Internal(_))));
    assert_eq!(
        Timestamp::from_nanos(i64::MIN + 5).saturating_sub(Duration::from_nanos(10)),
        Timestamp::from_nanos(i64::MIN)
    );
    assert!(Timestamp::now().nanos > 0);
}

// ---- poll strategy ----

#[test]
fn poll_strategy_validation() {
    assert!(PollStrategy::linear(Duration::zero(), Duration::from_secs(1)).is_none());
    assert!(PollStrategy::linear(Duration::from_secs(2), Duration::from_secs(1)).is_none());
    assert!(PollStrategy::linear(Duration::from_secs(1), Duration::from_secs(1)).is_some());
    assert!(PollStrategy::backoff(Duration::from_millis(50), 999, Duration::from_secs(1)).is_none());
    assert!(PollStrategy::backoff(Duration::zero(), 1500, Duration::from_secs(1)).is_none());
    assert!(PollStrategy::backoff(Duration::from_secs(2), 1500, Duration::from_secs(1)).is_none());
    assert_eq!(
        PollStrategy::backoff(Duration::from_millis(50), 1500, Duration::from_secs(10)),
        Some(PollStrategy::Backoff {
            base_delay: Duration::from_millis(50),
            multiplier_milli: 1500,
            max_duration: Duration::from_secs(10),
        })
    );
}

fn schedule_delays(strategy: PollStrategy, polls: usize) -> Vec<u64> {
    let mut schedule = DelaySchedule::new(strategy);
    let mut delays = Vec::new();
    for _ in 0..polls {
        delays.push(schedule.current().as_nanos());
        schedule.advance();
    }
    delays
}

fn backoff(base_nanos: u64, multiplier_milli: u32) -> PollStrategy {
    PollStrategy::Backoff {
        base_delay: Duration::from_nanos(base_nanos),
        multiplier_milli,
        max_duration: Duration::from_secs(10),
    }
}

#[test]
fn backoff_delays_grow_geometrically() {
    let s = PollStrategy::backoff(Duration::from_millis(100), 1500, Duration::from_secs(10)).unwrap();
    assert_eq!(s.first_delay(), Duration::from_millis(100));
    assert_eq!(schedule_delays(s, 3), vec![100_000_000, 150_000_000, 225_000_000]);
}

#[test]
fn backoff_delays_are_truncated_once() {
    // 1 · 1.5^k: 1, 1.5, 2.25, 3.375, 5.0625
    assert_eq!(schedule_delays(backoff(1, 1500), 5), vec![1, 1, 2, 3, 5]);
    // 999 · 1.001^k: 999, 999.999, 1000.998999
    assert_eq!(schedule_delays(backoff(999, 1001), 3), vec![999, 999, 1000]);
    // 3 · 1.5^k: 3, 4.5, 6.75, 10.125
    assert_eq!(schedule_delays(backoff(3, 1500), 4), vec![3, 4, 6, 10]);
    // 1000 · 0.5^k: 1000, 500, 250, 125, 62.5, 31.25
    assert_eq!(schedule_delays(backoff(1000, 500), 6), vec![1000, 500, 250, 125, 62, 31]);
}

#[test]
fn backoff_delays_match_exact_formula() {
    // base · 1.5^k = base · 3^k / 2^k, computed exactly for small k.
    let base: u128 = 100_000_000;
    let delays = schedule_delays(backoff(base as u64, 1500), 20);
    for (k, d) in delays.iter().enumerate() {
        let exact = base * 3u128.pow(k as u32) / 2u128.pow(k as u32);
        assert_eq!(*d as u128, exact, "poll {}", k);
    }
}

#[test]
fn backoff_delays_saturate() {
    assert_eq!(schedule_delays(backoff(u64::MAX, 2000), 4), vec![u64::MAX; 4]);
    let d = schedule_delays(backoff(u64::MAX / 2 + 1, 2000), 3);
    assert_eq!(d, vec![u64::MAX / 2 + 1, u64::MAX, u64::MAX]);
}

#[test]
fn unit_multiplier_polls_at_constant_interval() {
    let s = PollStrategy::backoff(Duration::from_millis(40), 1000, Duration::from_secs(1)).unwrap();
    assert_eq!(schedule_delays(s, 20), vec![40_000_000; 20]);
}

#[test]
fn linear_delay_is_constant() {
    let s = PollStrategy::linear(Duration::from_millis(100), Duration::from_secs(10)).unwrap();
    assert_eq!(s.first_delay(), Duration::from_millis(100));
    assert_eq!(schedule_delays(s, 5), vec![100_000_000; 5]);
}
