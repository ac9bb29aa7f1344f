use trin_supervisor::node::{Decimal, NodeHistoryLog};

const FIRST: &str = "[2024-10-31][19:13:41][trin_desktop_lib][INFO] Child process stdout: 2024-10-31T19:13:41.425824Z  INFO trin_history: reports~ data: radius=15% content=116.7/120mb #=13763 disk=267.1mb; msgs: offers=0/0, accepts=0/0, validations=0/0";
const SECOND: &str = "[2024-10-31][19:57:52][trin_desktop_lib][INFO] Child process stdout: 2024-10-31T19:57:52.530059Z  INFO trin_history: reports~ data: radius=8.8% content=117.7/120mb #=11719 disk=267.1mb; msgs: offers=26700/27338, accepts=11305/11305, validations=6050/6050";

#[test]
fn parse_first_report_line() {
    let r = NodeHistoryLog::parse_log_line(FIRST).unwrap();
    assert_eq!(r.radius, Decimal::from_whole(15));
    assert_eq!(r.content_current, Decimal::new(116, 7, 1));
    assert_eq!(r.content_total, Decimal::from_whole(120));
    assert_eq!(r.count, 13763);
    assert_eq!(r.disk_usage, Decimal::new(267, 1, 1));
    assert_eq!(r.offers_in, 0);
    assert_eq!(r.offers_out, 0);
    assert_eq!(r.accepts_in, 0);
    assert_eq!(r.accepts_out, 0);
    assert_eq!(r.validations_in, 0);
    assert_eq!(r.validations_out, 0);
}

#[test]
fn parse_second_report_line() {
    let r = NodeHistoryLog::parse_log_line(SECOND).unwrap();
    assert_eq!(r.radius, Decimal::new(8, 8, 1));
    assert_eq!(r.content_current, Decimal::new(117, 7, 1));
    assert_eq!(r.content_total, Decimal::from_whole(120));
    assert_eq!(r.count, 11719);
    assert_eq!(r.disk_usage, Decimal::new(267, 1, 1));
    assert_eq!(r.offers_in, 26700);
    assert_eq!(r.offers_out, 27338);
    assert_eq!(r.accepts_in, 11305);
    assert_eq!(r.accepts_out, 11305);
    assert_eq!(r.validations_in, 6050);
    assert_eq!(r.validations_out, 6050);
}

#[test]
fn parse_keeps_leading_zeros_of_fraction() {
    let r = NodeHistoryLog::parse_log_line(
        "radius=0.05% content=1.007/2mb #=3 disk=4.50mb; msgs: offers=1/2, accepts=3/4, validations=5/6",
    )
    .unwrap();
    assert_eq!(r.radius, Decimal::new(0, 5, 2));
    assert_eq!(r.content_current, Decimal::new(1, 7, 3));
    assert_eq!(r.disk_usage, Decimal::new(4, 50, 2));
    assert_eq!(r.validations_out, 6);
}

#[test]
fn parse_rejects_missing_field() {
    let line = "trin_history: reports~ data: radius=15% content=116.7/120mb disk=267.1mb; msgs: offers=0/0, accepts=0/0, validations=0/0";
    assert_eq!(NodeHistoryLog::parse_log_line(line), None);
}

#[test]
fn parse_rejects_non_numeric_field() {
    let line = "trin_history: reports~ data: radius=abc% content=116.7/120mb #=13763 disk=267.1mb; msgs: offers=0/0, accepts=0/0, validations=0/0";
    assert_eq!(NodeHistoryLog::parse_log_line(line), None);
}

#[test]
fn parse_rejects_truncated_line() {
    let line = "trin_history: reports~ data: radius=15% content=116.7/120mb #=13763 disk=267.1mb; msgs: offers=0/0, accepts=0/";
    assert_eq!(NodeHistoryLog::parse_log_line(line), None);
}

#[test]
fn parse_rejects_counter_over_u32() {
    let line = "radius=15% content=1/2mb #=4294967296 disk=1mb; msgs: offers=0/0, accepts=0/0, validations=0/0";
    assert_eq!(NodeHistoryLog::parse_log_line(line), None);
    let line = "radius=15% content=1/2mb #=4294967295 disk=1mb; msgs: offers=0/0, accepts=0/0, validations=0/0";
    assert_eq!(NodeHistoryLog::parse_log_line(line).unwrap().count, 4294967295);
}

#[test]
fn parse_rejects_unrelated_line() {
    assert_eq!(NodeHistoryLog::parse_log_line("INFO portalnet: listening"), None);
    assert_eq!(NodeHistoryLog::parse_log_line(""), None);
}

#[test]
fn parse_accepts_integer_and_decimal_forms() {
    let r = NodeHistoryLog::parse_log_line(
        "radius=15.% content=0.0/120mb #=0 disk=7mb; msgs: offers=1/1, accepts=1/1, validations=1/1",
    )
    .unwrap();
    assert_eq!(r.radius, Decimal::from_whole(15));
    assert_eq!(r.content_current, Decimal::new(0, 0, 1));
    assert_eq!(r.disk_usage, Decimal::from_whole(7));
}

#[test]
fn parse_rejects_fraction_over_u64() {
    let line = "radius=1.123456789012345678901% content=1/2mb #=3 disk=1mb; msgs: offers=0/0, accepts=0/0, validations=0/0";
    assert_eq!(NodeHistoryLog::parse_log_line(line), None);
}
