use chrono::{Datelike, Local, NaiveDateTime, TimeZone, Timelike};
use znappr::clock::{fake_timestamp, instant_from, moment_at, moment_from, FakeDate};
use znappr::schedule::{process_jobs, JobAction};
use znappr::snapshot::{take_snapshot, SnapshotPlan};

#[test]
fn moment_reads_the_local_calendar() {
    for ts in [0i64, 1735689599, 1748736900, 1767225600, 1711846800] {
        let m = moment_at(ts).unwrap();
        let local = Local.timestamp_opt(ts, 0).unwrap();
        assert_eq!(m.timestamp, ts);
        assert_eq!(m.utc_offset, local.offset().local_minus_utc());
        assert_eq!((m.year, m.month, m.day), (local.year(), local.month(), local.day()));
        assert_eq!(m.day_of_year, local.ordinal());
        assert_eq!(m.day_of_week, local.weekday().number_from_sunday());
        assert_eq!((m.hour, m.minute), (local.hour(), local.minute()));
        let earlier = Local.timestamp_opt(ts - 3600, 0).unwrap();
        assert_eq!((m.pre_year, m.pre_month, m.pre_day), (earlier.year(), earlier.month(), earlier.day()));
    }
}

#[test]
fn fake_date_names_a_local_instant() {
    match fake_timestamp("2025-06-01-00:15") {
        FakeDate::At { timestamp, utc_offset } => {
            let naive = NaiveDateTime::parse_from_str("2025-06-01-00:15", "%Y-%m-%d-%H:%M").unwrap();
            let local = Local.from_local_datetime(&naive).unwrap();
            assert_eq!(timestamp, local.timestamp());
            assert_eq!(utc_offset, local.offset().local_minus_utc());
            let m = moment_at(timestamp).unwrap();
            assert_eq!((m.year, m.month, m.day, m.hour, m.minute), (2025, 6, 1, 0, 15));
            assert_eq!(m.day_of_week, 1);
            assert_eq!(m.day_of_year, 152);
        }
        _ => panic!("expected an instant"),
    }
    assert!(matches!(fake_timestamp("2025-06-01"), FakeDate::Unparsable));
    assert!(matches!(fake_timestamp("yesterday"), FakeDate::Unparsable));
    assert!(matches!(fake_timestamp("2025-13-01-00:00"), FakeDate::Unparsable));
}

#[test]
fn pre_date_is_one_hour_earlier() {
    // Half past midnight on New Year's Day: the pre-date is New Year's Eve.
    if let FakeDate::At { timestamp, .. } = fake_timestamp("2026-01-01-00:30") {
        let m = moment_at(timestamp).unwrap();
        assert_eq!((m.pre_year, m.pre_month, m.pre_day), (2025, 12, 31));
    } else {
        panic!("expected an instant");
    }
    if let FakeDate::At { timestamp, .. } = fake_timestamp("2026-03-15-12:00") {
        let m = moment_at(timestamp).unwrap();
        assert_eq!((m.pre_year, m.pre_month, m.pre_day), (2026, 3, 15));
    } else {
        panic!("expected an instant");
    }
}

fn run_plan(fake: &str, job: znappr::config::Job) -> Vec<Vec<String>> {
    let ts = match fake_timestamp(fake) {
        FakeDate::At { timestamp, .. } => timestamp,
        _ => panic!("expected an instant"),
    };
    let now = moment_at(ts).unwrap();
    let z = znappr::config::Znappr { jobs: vec![job] };
    let plan = process_jobs(&z, &now);
    let mut commands = vec![];
    for a in plan.actions {
        if let JobAction::TakeSnapshot(k) = a {
            let j = &z.jobs[k];
            match take_snapshot(&j.dataset, j.recursive, &j.prefix, &j.postfix, &j.date_format, j.pre_date, &now) {
                SnapshotPlan::Take { args, .. } => commands.push(args),
                _ => panic!("expected a snapshot"),
            }
        }
    }
    commands
}

fn job(prefix: &str, format: &str, pre_date: bool, whens: &[(&str, &str)]) -> znappr::config::Job {
    znappr::config::Job {
        comment: vec![],
        dataset: "tank/home".to_string(),
        recursive: false,
        prefix: prefix.to_string(),
        postfix: String::new(),
        date_format: format.to_string(),
        pre_date,
        whens: whens
            .iter()
            .map(|(f, v)| znappr::config::When { field: f.to_string(), value: v.to_string() })
            .collect(),
        purge_rule: znappr::config::PurgeRule { unit: "none".to_string(), value: "0".to_string() },
    }
}

#[test]
fn documented_labels() {
    assert_eq!(
        run_plan("2026-02-01-00:00", job("MONTHLY___", "%Y-%m-%d", true, &[])),
        vec![vec!["snapshot", "tank/home@MONTHLY___2026-01-31"]]
    );
    assert_eq!(
        run_plan("2026-01-01-00:00", job("YEARLY____", "%Y", true, &[])),
        vec![vec!["snapshot", "tank/home@YEARLY____2025"]]
    );
    assert_eq!(
        run_plan("2026-03-15-12:00", job("DAY_", "%Y-%m-%d", true, &[])),
        vec![vec!["snapshot", "tank/home@DAY_2026-03-15"]]
    );
    assert_eq!(
        run_plan("2025-06-01-00:00", job("M_", "%Y-%m-%d", false, &[("day_of_week", "1"), ("day", "1")])),
        vec![vec!["snapshot", "tank/home@M_2025-06-01"]]
    );
    let every = [("minute", "45"), ("hour", "23"), ("day", "31"), ("day_of_week", "3"), ("day_of_year", "366"), ("month", "12")];
    assert_eq!(
        run_plan("2024-12-31-23:45", job("E_", "%Y-%m-%d-%H:%M", false, &every)),
        vec![vec!["snapshot", "tank/home@E_2024-12-31-23:45"]]
    );
}

#[test]
fn moment_from_reads_the_shifted_instants() {
    // 2025-06-01 00:15 UTC, a Sunday, the 152nd day of the year.
    let m = moment_from(1748736900, 0, 0).unwrap();
    assert_eq!((m.year, m.month, m.day, m.hour, m.minute), (2025, 6, 1, 0, 15));
    assert_eq!((m.day_of_week, m.day_of_year), (1, 152));
    assert_eq!((m.pre_year, m.pre_month, m.pre_day), (2025, 5, 31));
    assert_eq!((m.timestamp, m.utc_offset, m.pre_utc_offset), (1748736900, 0, 0));
    let east = moment_from(1748736900, 7200, 3600).unwrap();
    assert_eq!((east.year, east.month, east.day, east.hour, east.minute), (2025, 6, 1, 2, 15));
    assert_eq!((east.pre_year, east.pre_month, east.pre_day), (2025, 6, 1));
    assert_eq!((east.utc_offset, east.pre_utc_offset), (7200, 3600));
    assert!(moment_from(i64::MIN, 0, 0).is_none());
    assert!(moment_from(i64::MAX, 1, 0).is_none());
}

#[test]
fn instant_from_takes_the_offset_off() {
    match instant_from(2025, 6, 1, 0, 15, 3600) {
        FakeDate::At { timestamp, utc_offset } => {
            assert_eq!(timestamp, 1748736900 - 3600);
            assert_eq!(utc_offset, 3600);
        }
        _ => panic!("expected an instant"),
    }
    assert!(matches!(instant_from(2025, 2, 30, 0, 0, 0), FakeDate::NoSuchLocalTime));
    assert!(matches!(instant_from(2025, 6, 1, 24, 0, 0), FakeDate::NoSuchLocalTime));
}
