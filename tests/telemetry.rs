use trin_supervisor::node::{Decimal, NodeHistoryLog};
use trin_supervisor::telemetry::{classify_line, Category, NodeStats, TickOutcome, TickReport};

const FIRST: &str = "...trin_history: reports~ data: radius=15% content=116.7/120mb #=13763 disk=267.1mb; msgs: offers=0/0, accepts=0/0, validations=0/0";
const SECOND: &str = "...trin_history: reports~ data: radius=8.8% content=117.7/120mb #=11719 disk=267.1mb; msgs: offers=26700/27338, accepts=11305/11305, validations=6050/6050";

#[test]
fn classify_by_marker() {
    assert_eq!(classify_line(FIRST), Some(Category::History));
    assert_eq!(classify_line("x trin_state: reports~ data: radius=1%"), Some(Category::State));
    assert_eq!(classify_line("x trin_beacon: reports~ data: radius=1%"), Some(Category::Beacon));
    assert_eq!(classify_line("x trin_history: started"), None);
}

#[test]
fn later_line_replaces_record_entirely() {
    let mut stats = NodeStats::new();
    assert_eq!(stats.ingest_line(FIRST), Some(Category::History));
    assert_eq!(stats.history_data.count, 13763);
    assert_eq!(stats.ingest_line(SECOND), Some(Category::History));
    assert_eq!(stats.history_data, NodeHistoryLog::parse_log_line(SECOND).unwrap());
    assert_eq!(stats.history_data.radius, Decimal::new(8, 8, 1));
    assert_eq!(stats.history_data.content_current, Decimal::new(117, 7, 1));
    assert_eq!(stats.history_data.count, 11719);
    assert_eq!(stats.history_data.offers_in, 26700);
    assert_eq!(stats.history_data.offers_out, 27338);
    assert_eq!(stats.history_data.validations_in, 6050);
    assert_eq!(stats.state_data, NodeHistoryLog::empty());
    assert_eq!(stats.beacon_data, NodeHistoryLog::empty());
}

#[test]
fn malformed_line_keeps_prior_record() {
    let mut stats = NodeStats::new();
    stats.ingest_line(FIRST);
    let before = stats;
    let truncated = "...trin_history: reports~ data: radius=9% content=1/120mb #=5";
    assert_eq!(stats.ingest_line(truncated), None);
    let non_numeric = "...trin_history: reports~ data: radius=9% content=x/120mb #=5 disk=1mb; msgs: offers=0/0, accepts=0/0, validations=0/0";
    assert_eq!(stats.ingest_line(non_numeric), None);
    assert_eq!(stats, before);
}

#[test]
fn unmarked_line_changes_nothing() {
    let mut stats = NodeStats::new();
    let line = "radius=15% content=116.7/120mb #=13763 disk=267.1mb; msgs: offers=0/0, accepts=0/0, validations=0/0";
    assert_eq!(stats.ingest_line(line), None);
    assert_eq!(stats, NodeStats::new());
}

#[test]
fn state_category_goes_to_its_own_record() {
    let mut stats = NodeStats::new();
    let line = "trin_state: reports~ data: radius=1% content=2/3mb #=4 disk=5mb; msgs: offers=6/7, accepts=8/9, validations=10/11";
    assert_eq!(stats.ingest_line(line), Some(Category::State));
    assert_eq!(stats.state_data.validations_out, 11);
    assert_eq!(stats.history_data, NodeHistoryLog::empty());
}

#[test]
fn tick_updates_sampled_fields_only() {
    let mut stats = NodeStats::new();
    stats.ingest_line(SECOND);
    let report = TickReport {
        cpu: Some(2000),
        pid: 42,
        finalized_block: Some(100),
        optimistic_block: None,
        alive: true,
    };
    let out = stats.apply_tick(&report);
    assert_eq!(out, TickOutcome::Publish(stats));
    assert_eq!(stats.cpu, 2000);
    assert!(stats.cpu_sampled);
    assert_eq!(stats.pid, 42);
    assert_eq!(stats.latest_finalized_block, 100);
    assert_eq!(stats.latest_optimistic_block, 0);
    assert_eq!(stats.history_data.count, 11719);
}

#[test]
fn tick_with_missing_worker_is_marked_unsampled() {
    let mut stats = NodeStats::new();
    let first = TickReport { cpu: Some(700), pid: 7, finalized_block: None, optimistic_block: Some(9), alive: true };
    stats.apply_tick(&first);
    let second = TickReport { cpu: None, pid: 7, finalized_block: None, optimistic_block: None, alive: true };
    let missing = stats.apply_tick(&second);
    assert_eq!(stats.cpu, 0);
    assert!(!stats.cpu_sampled);
    let mut idle = NodeStats::new();
    idle.apply_tick(&first);
    let measured_zero = idle.apply_tick(&TickReport { cpu: Some(0), ..second });
    assert!(idle.cpu_sampled);
    assert_ne!(missing, measured_zero);
    assert_eq!(stats.latest_optimistic_block, 9);
}

#[test]
fn failed_probe_reports_crash_and_keeps_snapshot() {
    let mut stats = NodeStats::new();
    stats.ingest_line(FIRST);
    let before = stats;
    let report = TickReport { cpu: Some(5), pid: 1, finalized_block: Some(3), optimistic_block: Some(4), alive: false };
    assert_eq!(stats.apply_tick(&report), TickOutcome::Crashed);
    assert_eq!(stats, before);
}

#[test]
fn ingestion_and_tick_commute() {
    let report = TickReport { cpu: Some(1234), pid: 5, finalized_block: Some(77), optimistic_block: Some(78), alive: true };
    let mut a = NodeStats::new();
    a.ingest_line(SECOND);
    a.apply_tick(&report);
    let mut b = NodeStats::new();
    b.apply_tick(&report);
    b.ingest_line(SECOND);
    assert_eq!(a, b);
    assert_eq!(a.cpu, 1234);
    assert_eq!(a.history_data, NodeHistoryLog::parse_log_line(SECOND).unwrap());
}
