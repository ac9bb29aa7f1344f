use trin_supervisor::supervisor::{
    probe_timeout_ms, StartError, StartupAction, Supervisor, Teardown, RPC_TIMEOUT_MS,
    STARTUP_PROBE_INTERVAL_MS, STARTUP_TIMEOUT_MS,
};

fn running() -> Supervisor {
    let mut s = Supervisor::new();
    s.request_start().unwrap();
    s.spawn_finished(true).unwrap();
    assert_eq!(s.probe_finished(true, 0), StartupAction::Launch);
    s
}

#[test]
fn stop_twice_is_a_no_op_the_second_time() {
    let mut s = running();
    let first = s.stop();
    assert_eq!(first, Teardown { kill_worker: true, cancel_log: true, cancel_sampler: true });
    let after_first = s;
    let second = s.stop();
    assert_eq!(second, Teardown { kill_worker: false, cancel_log: false, cancel_sampler: false });
    assert_eq!(s, after_first);
    assert_eq!(s, Supervisor::new());
}

/// Runs startup against a worker that never answers, each probe taking
/// `probe_ms` or its budget if that is less; returns the probes made and the
/// simulated time of the abort.
fn run_silent_startup(probe_ms: u64) -> (u32, u64, Supervisor) {
    let mut s = Supervisor::new();
    s.request_start().unwrap();
    s.spawn_finished(true).unwrap();
    let mut now: u64 = 0;
    let mut probes: u32 = 0;
    loop {
        probes += 1;
        now += probe_ms.min(probe_timeout_ms(now));
        match s.probe_finished(false, now) {
            StartupAction::Retry(ms) => now += ms,
            StartupAction::Abort => return (probes, now, s),
            StartupAction::Launch => panic!("launched without an answer"),
        }
    }
}

#[test]
fn unresponsive_worker_is_killed_within_twenty_seconds() {
    let (probes, at, s) = run_silent_startup(0);
    assert_eq!(probes, 20);
    assert_eq!(at, 19 * STARTUP_PROBE_INTERVAL_MS);
    assert!(at <= 20_000);
    assert!(!s.worker);
    assert_eq!(s, Supervisor::new());
}

#[test]
fn hung_endpoint_still_fails_within_twenty_seconds() {
    let (probes, at, s) = run_silent_startup(u64::MAX);
    assert_eq!(probes, 2);
    assert_eq!(at, STARTUP_TIMEOUT_MS);
    assert!(at <= 20_000);
    assert_eq!(s, Supervisor::new());
}

#[test]
fn probe_timeout_is_cut_to_the_window() {
    assert_eq!(probe_timeout_ms(0), RPC_TIMEOUT_MS);
    assert_eq!(probe_timeout_ms(10_000), 10_000);
    assert_eq!(probe_timeout_ms(15_500), 4_500);
    assert_eq!(probe_timeout_ms(20_000), 0);
    assert_eq!(probe_timeout_ms(u64::MAX), 0);
}

#[test]
fn answer_after_retries_launches_tasks() {
    let mut s = Supervisor::new();
    s.request_start().unwrap();
    s.spawn_finished(true).unwrap();
    for i in 0..5u64 {
        assert_eq!(s.probe_finished(false, i * 1_000), StartupAction::Retry(1_000));
    }
    assert_eq!(s.probe_finished(true, 5_000), StartupAction::Launch);
    assert!(s.worker && s.log_task && s.sample_task);
}

#[test]
fn second_start_is_refused_without_side_effects() {
    let mut s = running();
    let before = s;
    assert_eq!(s.request_start(), Err(StartError::AlreadyRunning));
    assert_eq!(s, before);
}

#[test]
fn spawn_failure_returns_to_idle() {
    let mut s = Supervisor::new();
    s.request_start().unwrap();
    assert_eq!(s.spawn_finished(false), Err(StartError::Spawn));
    assert_eq!(s, Supervisor::new());
    assert!(s.request_start().is_ok());
}

#[test]
fn crash_tears_down_the_rest_of_the_session() {
    let mut s = running();
    let t = s.crash_detected();
    assert_eq!(t, Teardown { kill_worker: true, cancel_log: true, cancel_sampler: false });
    assert_eq!(s, Supervisor::new());
    assert_eq!(s.stop(), Teardown { kill_worker: false, cancel_log: false, cancel_sampler: false });
}
