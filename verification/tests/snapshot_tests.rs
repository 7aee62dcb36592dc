use znappr::purge::{
    destroy_args, get_snapshots, purge_snapshots, snapshot_pattern, try_get_snapshots,
    try_purge_snapshots, Snapshot,
};
use znappr::schedule::Moment;
use znappr::snapshot::{plan_at_offset, snapshot_command, snapshot_time, take_snapshot, SnapshotPlan};

fn snap(name: &str, date: i64) -> Snapshot {
    Snapshot { snapshot: name.to_string(), date: date.to_string() }
}

// Newest first, as `zfs list -S creation` gives them.
fn four() -> Vec<Snapshot> {
    vec![snap("p@d4", 4000), snap("p@d3", 3000), snap("p@d2", 2000), snap("p@d1", 1000)]
}

#[test]
fn count_rule_deletes_oldest_first() {
    assert_eq!(purge_snapshots(&four(), "count", "2", 5000), vec!["p@d1", "p@d2"]);
    assert_eq!(purge_snapshots(&four(), "count", "0", 5000), vec!["p@d1", "p@d2", "p@d3", "p@d4"]);
}

#[test]
fn count_rule_keeps_all_when_not_exceeded() {
    assert!(purge_snapshots(&four(), "count", "4", 5000).is_empty());
    assert!(purge_snapshots(&four(), "count", "72", 5000).is_empty());
    assert!(purge_snapshots(&vec![], "count", "1", 5000).is_empty());
}

#[test]
fn time_rules_delete_older_snapshots() {
    // Ages 1000, 2000, 3000, 4000 seconds.
    assert_eq!(purge_snapshots(&four(), "minute", "40", 5000), vec!["p@d2", "p@d1"]);
    // Exactly the period old is kept.
    assert_eq!(purge_snapshots(&four(), "minute", "50", 5000), vec!["p@d1"]);
    assert_eq!(purge_snapshots(&four(), "hour", "1", 5000), vec!["p@d1"]);
    assert!(purge_snapshots(&four(), "hour", "2", 5000).is_empty());
    let now = 400 * 86400;
    let old = vec![snap("a", now - 2 * 86400), snap("b", now - 8 * 86400), snap("c", now - 400 * 86400)];
    assert_eq!(purge_snapshots(&old, "day", "7", now), vec!["b", "c"]);
    assert_eq!(purge_snapshots(&old, "week", "1", now), vec!["b", "c"]);
    assert_eq!(purge_snapshots(&old, "year", "1", now), vec!["c"]);
}

#[test]
fn other_rules_delete_nothing() {
    assert!(purge_snapshots(&four(), "none", "whatever", 5000).is_empty());
    assert!(purge_snapshots(&four(), "all", "1", 5000).is_empty());
}

#[test]
fn purge_faults_are_reported() {
    assert_eq!(try_purge_snapshots(&four(), "count", "many", 5000), None);
    assert_eq!(try_purge_snapshots(&four(), "day", "-1", 5000), None);
    // Long periods are counted in full.
    assert_eq!(try_purge_snapshots(&four(), "day", "50000", 5000), Some(vec![]));
    assert_eq!(try_purge_snapshots(&four(), "year", "4294967295", 5000), Some(vec![]));
    let bad = vec![snap("a", 1), Snapshot { snapshot: "b".to_string(), date: "yesterday".to_string() }];
    assert_eq!(try_purge_snapshots(&bad, "minute", "1", 5000), None);
    // The count rule never reads the creation times.
    assert_eq!(try_purge_snapshots(&bad, "count", "1", 5000), Some(vec!["b".to_string()]));
    let far = vec![snap("a", i64::MIN)];
    assert_eq!(try_purge_snapshots(&far, "minute", "1", 1), None);
}

#[test]
fn snapshot_listing_is_read_line_by_line() {
    let listing = "zroot/home@DAY_2025-01-02\t1735776000\nzroot/home@DAY_2025-01-01\t1735689600\n";
    let s = get_snapshots(listing);
    assert_eq!(s.len(), 2);
    assert_eq!(s[0].snapshot, "zroot/home@DAY_2025-01-02");
    assert_eq!(s[0].date, "1735776000");
    assert_eq!(s[1].snapshot, "zroot/home@DAY_2025-01-01");
    assert_eq!(s[1].date, "1735689600");
    assert!(get_snapshots("").is_empty());
    let crlf = get_snapshots("a\t1\r\nb\t2");
    assert_eq!(crlf[0].date, "1");
    assert_eq!(crlf[1].date, "2");
    assert!(try_get_snapshots("a\t1\nno-tab\n").is_none());
}

#[test]
fn grep_pattern_and_destroy_arguments() {
    assert_eq!(snapshot_pattern("zroot/home", "DAY_", "_x"), "zroot/home@DAY_.*_x");
    assert_eq!(destroy_args("zroot/home@a", false), vec!["destroy", "zroot/home@a"]);
    assert_eq!(destroy_args("zroot/home@a", true), vec!["destroy", "-r", "zroot/home@a"]);
}

#[test]
fn snapshot_command_builds_label() {
    assert_eq!(
        snapshot_command("zroot/home", false, "DAY_", "2025-06-15", "_x"),
        Some(vec!["snapshot".to_string(), "zroot/home@DAY_2025-06-15_x".to_string()])
    );
    assert_eq!(
        snapshot_command("zroot/home", true, "", "2025", ""),
        Some(vec!["snapshot".to_string(), "-r".to_string(), "zroot/home@2025".to_string()])
    );
    assert_eq!(snapshot_command("zroot/home", true, "", "", ""), None);
}

fn midsummer() -> Moment {
    Moment {
        year: 2025,
        month: 6,
        day: 15,
        day_of_year: 166,
        day_of_week: 1,
        hour: 12,
        minute: 30,
        timestamp: 1749990600,
        utc_offset: 0,
        pre_utc_offset: 0,
        pre_year: 2025,
        pre_month: 6,
        pre_day: 14,
    }
}

#[test]
fn snapshot_time_follows_pre_date() {
    assert_eq!(snapshot_time(false, &midsummer()), (2025, 6, 15, 12, 30));
    assert_eq!(snapshot_time(true, &midsummer()), (2025, 6, 14, 0, 0));
}

#[test]
fn take_snapshot_renders_the_date() {
    match take_snapshot("zroot/home", false, "QUARTER__", "", "%Y-%m-%d-%H:%M", false, &midsummer()) {
        SnapshotPlan::Take { date, utc_offset: _, args } => {
            assert_eq!(date, "2025-06-15-12:30");
            assert_eq!(args, vec!["snapshot", "zroot/home@QUARTER__2025-06-15-12:30"]);
        }
        _ => panic!("expected a snapshot"),
    }
    match take_snapshot("zroot/ROOT", true, "DAY______", "", "%Y-%m-%d %H:%M", true, &midsummer()) {
        SnapshotPlan::Take { date: _, utc_offset: _, args } => assert_eq!(args, vec!["snapshot", "-r", "zroot/ROOT@DAY______2025-06-14 00:00"]),
        _ => panic!("expected a snapshot"),
    }
}

#[test]
fn take_snapshot_reports_what_stops_it() {
    assert!(matches!(take_snapshot("z/h", false, "", "", "", false, &midsummer()), SnapshotPlan::EmptyLabel { .. }));
    let mut bad = midsummer();
    bad.month = 13;
    assert!(matches!(
        take_snapshot("z/h", false, "D", "", "%Y", false, &bad),
        SnapshotPlan::NoSuchLocalTime { year: 2025, month: 13, day: 15, hour: 12, minute: 30 }
    ));
    bad = midsummer();
    bad.pre_day = 31;
    assert!(matches!(
        take_snapshot("z/h", false, "D", "", "%Y", true, &bad),
        SnapshotPlan::NoSuchLocalTime { year: 2025, month: 6, day: 31, hour: 0, minute: 0 }
    ));
    match take_snapshot("z/h", false, "D", "", "%Y-%", false, &midsummer()) {
        SnapshotPlan::FormatFailed { date_format, .. } => assert_eq!(date_format, "%Y-%"),
        _ => panic!("expected a format failure"),
    }
}

#[test]
fn long_periods_do_not_fault() {
    // About 95 years old, kept under a 200-year rule.
    let old = vec![snap("tank/home@Y_1", 0)];
    assert!(purge_snapshots(&old, "year", "200", 3000000000).is_empty());
    assert_eq!(purge_snapshots(&old, "year", "90", 3000000000), vec!["tank/home@Y_1"]);
}

#[test]
fn plan_at_offset_renders_the_label_time_at_the_offset() {
    match plan_at_offset("tank/home", false, "MONTHLY___", "", "%Y-%m-%d", (2026, 1, 31, 0, 0), 0) {
        SnapshotPlan::Take { date, utc_offset, args } => {
            assert_eq!(date, "2026-01-31");
            assert_eq!(utc_offset, 0);
            assert_eq!(args, vec!["snapshot", "tank/home@MONTHLY___2026-01-31"]);
        }
        _ => panic!("expected a snapshot"),
    }
    match plan_at_offset("tank/home", true, "E_", "_x", "%Y-%m-%d-%H:%M%z", (2024, 12, 31, 23, 45), 3600) {
        SnapshotPlan::Take { date, utc_offset, args } => {
            assert_eq!(date, "2024-12-31-23:45+0100");
            assert_eq!(utc_offset, 3600);
            assert_eq!(args, vec!["snapshot", "-r", "tank/home@E_2024-12-31-23:45+0100_x"]);
        }
        _ => panic!("expected a snapshot"),
    }
    match plan_at_offset("tank/home", false, "", "", "", (2026, 1, 31, 0, 0), -7200) {
        SnapshotPlan::EmptyLabel { utc_offset } => assert_eq!(utc_offset, -7200),
        _ => panic!("expected an empty label"),
    }
    match plan_at_offset("tank/home", false, "D_", "", "%Y-%m-%d", (2026, 2, 30, 0, 0), 0) {
        SnapshotPlan::FormatFailed { date_format, utc_offset } => {
            assert_eq!(date_format, "%Y-%m-%d");
            assert_eq!(utc_offset, 0);
        }
        _ => panic!("expected a failed rendering"),
    }
}
