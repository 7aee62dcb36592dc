use znappr::config::{adfix_is_valid, Job, PurgeRule, When};
use znappr::schedule::{
    check_values, job_should_run, parse_part, try_check_values, try_job_should_run,
    validate_when_value, JobAction, Moment, WhenPart,
};

fn chars(s: &str) -> Vec<char> {
    s.chars().collect()
}

#[test]
fn check_values_asterisk_matches_everything() {
    assert!(check_values("*", 0));
    assert!(check_values("*", 59));
}

#[test]
fn check_values_single_and_list() {
    assert!(check_values("1", 1));
    assert!(!check_values("1", 2));
    assert!(check_values("1,5,10", 5));
    assert!(check_values("1,5,10", 10));
    assert!(!check_values("1,5,10", 6));
}

#[test]
fn check_values_range_is_inclusive() {
    assert!(check_values("1-10", 1));
    assert!(check_values("1-10", 10));
    assert!(!check_values("1-10", 11));
    assert!(!check_values("1-10", 0));
}

#[test]
fn check_values_combination_from_docs() {
    for t in [1u32, 3, 4, 5, 6, 24] {
        assert!(check_values("1,3-6,24", t));
    }
    for t in [0u32, 2, 7, 23, 25] {
        assert!(!check_values("1,3-6,24", t));
    }
}

#[test]
fn check_values_step_matches_multiples() {
    assert!(check_values("*/15", 0));
    assert!(check_values("*/15", 45));
    assert!(!check_values("*/15", 20));
    assert!(check_values("1,*/20", 1));
    assert!(check_values("1,*/20", 40));
    assert!(!check_values("1,*/20", 30));
    // What stands before the slash is not read.
    assert!(check_values("7/10", 30));
}

#[test]
fn check_values_accepts_plus_sign() {
    assert!(check_values("+5", 5));
}

#[test]
fn check_values_faults_are_reported() {
    assert_eq!(try_check_values("x", 3), None);
    assert_eq!(try_check_values("", 3), None);
    assert_eq!(try_check_values("*/0", 3), None);
    assert_eq!(try_check_values("-5", 3), None);
    assert_eq!(try_check_values("1-2-3", 3), None);
    assert_eq!(try_check_values("99999999999", 3), None);
    // A fault after a matching part is never reached.
    assert_eq!(try_check_values("3,x", 3), Some(true));
    assert_eq!(try_check_values("4,x", 3), None);
}

#[test]
fn parse_part_reads_each_form() {
    assert_eq!(parse_part(&chars("*")), WhenPart::Any);
    assert_eq!(parse_part(&chars("3-6")), WhenPart::Range(3, 6));
    assert_eq!(parse_part(&chars("*/15")), WhenPart::Step(15));
    assert_eq!(parse_part(&chars("42")), WhenPart::Single(42));
    assert_eq!(parse_part(&chars("4x")), WhenPart::Malformed);
    assert_eq!(parse_part(&chars("**")), WhenPart::Malformed);
}

#[test]
fn validate_when_value_limits() {
    assert!(validate_when_value("*"));
    assert!(validate_when_value("1000"));
    assert!(!validate_when_value("1001"));
    assert!(validate_when_value("0-1000"));
    assert!(!validate_when_value("2-1001"));
    assert!(validate_when_value("*/1000"));
    assert!(!validate_when_value("*/0"));
    assert!(!validate_when_value("*/1001"));
    assert!(validate_when_value("1,5,10"));
    assert!(validate_when_value("1,3-6,24"));
    assert!(validate_when_value("1,*/20"));
    // Every part must be acceptable.
    assert!(!validate_when_value("2000,5"));
    assert!(!validate_when_value("5,x"));
    assert!(!validate_when_value("1,abc"));
    assert!(!validate_when_value("5,*/0"));
    assert!(!validate_when_value("abc"));
    assert!(!validate_when_value(""));
    assert!(!validate_when_value("1,"));
}

#[test]
fn adfix_allows_letters_digits_dot_underscore_hyphen() {
    assert!(adfix_is_valid("QUARTER__"));
    assert!(adfix_is_valid("_NOT_REQUIRED"));
    assert!(adfix_is_valid("a.b-c_9"));
    assert!(adfix_is_valid("été٣"));
    assert!(adfix_is_valid(""));
    assert!(!adfix_is_valid("a/b"));
    assert!(!adfix_is_valid("a@b"));
    assert!(!adfix_is_valid("a b"));
    assert!(!adfix_is_valid("tab\t"));
}

fn when(field: &str, value: &str) -> When {
    When { field: field.to_string(), value: value.to_string() }
}

fn job(prefix: &str, whens: Vec<When>) -> Job {
    Job {
        comment: vec![],
        dataset: "zroot/home".to_string(),
        recursive: true,
        prefix: prefix.to_string(),
        postfix: String::new(),
        date_format: "%Y-%m-%d".to_string(),
        pre_date: false,
        whens,
        purge_rule: PurgeRule { unit: "count".to_string(), value: "8".to_string() },
    }
}

// 2025-06-01 00:15 is a Sunday, the 152nd day of the year.
fn june_first() -> Moment {
    Moment {
        year: 2025,
        month: 6,
        day: 1,
        day_of_year: 152,
        day_of_week: 1,
        hour: 0,
        minute: 15,
        timestamp: 1748736900,
        utc_offset: 0,
        pre_utc_offset: 0,
        pre_year: 2025,
        pre_month: 5,
        pre_day: 31,
    }
}

#[test]
fn job_runs_when_all_fields_match() {
    let j = job(
        "QUARTER__",
        vec![
            when("minute", "15,30,45"),
            when("hour", "*"),
            when("day", "*"),
            when("day_of_week", "*"),
            when("day_of_year", "*"),
            when("month", "*"),
        ],
    );
    assert!(job_should_run(&j, &june_first()));
    let mut later = june_first();
    later.minute = 16;
    assert!(!job_should_run(&j, &later));
}

#[test]
fn first_of_month_on_sunday_from_docs() {
    let j = job("M", vec![when("day_of_week", "1"), when("day", "1")]);
    assert!(job_should_run(&j, &june_first()));
    let mut other = june_first();
    other.day_of_week = 2;
    assert!(!job_should_run(&j, &other));
}

#[test]
fn each_field_is_tested_against_its_value() {
    let now = june_first();
    assert!(job_should_run(&job("A", vec![when("hour", "0")]), &now));
    assert!(job_should_run(&job("A", vec![when("day_of_year", "152")]), &now));
    assert!(job_should_run(&job("A", vec![when("month", "6")]), &now));
    assert!(!job_should_run(&job("A", vec![when("month", "5")]), &now));
}

#[test]
fn job_without_whens_runs() {
    assert!(job_should_run(&job("DAY", vec![]), &june_first()));
}

#[test]
fn unknown_field_never_matches() {
    assert!(!job_should_run(&job("DAY", vec![when("second", "*")]), &june_first()));
}

#[test]
fn invalid_prefix_skips_job() {
    assert_eq!(try_job_should_run(&job("bad/prefix", vec![when("minute", "x")]), &june_first()), Some(false));
}

#[test]
fn every_when_is_evaluated() {
    // The first when fails and the second faults: the job faults.
    let j = job("DAY", vec![when("minute", "59"), when("hour", "x")]);
    assert_eq!(try_job_should_run(&j, &june_first()), None);
}

#[test]
fn process_jobs_lists_due_jobs_in_order() {
    let jobs = vec![
        job("A", vec![when("minute", "15")]),
        job("B", vec![when("minute", "16")]),
        job("bad prefix", vec![]),
        job("C", vec![]),
    ];
    let plan = znappr::schedule::process_jobs(&znappr::config::Znappr { jobs }, &june_first());
    assert_eq!(
        plan.actions,
        vec![JobAction::TakeSnapshot(0), JobAction::Purge(0), JobAction::TakeSnapshot(3), JobAction::Purge(3)]
    );
    assert_eq!(plan.fault, None);
}

#[test]
fn process_jobs_stops_at_first_fault() {
    let jobs = vec![
        job("A", vec![when("minute", "*")]),
        job("B", vec![when("hour", "oops")]),
        job("C", vec![]),
    ];
    let plan = znappr::schedule::process_jobs(&znappr::config::Znappr { jobs }, &june_first());
    assert_eq!(plan.actions, vec![JobAction::TakeSnapshot(0), JobAction::Purge(0)]);
    assert_eq!(plan.fault, Some(1));
}

#[test]
fn asterisk_when_leaves_the_plan_unchanged() {
    let jobs = || {
        vec![
            job("A", vec![when("minute", "15")]),
            job("B", vec![when("minute", "16")]),
            job("C", vec![when("hour", "oops")]),
        ]
    };
    let before = znappr::schedule::process_jobs(&znappr::config::Znappr { jobs: jobs() }, &june_first());
    for k in 0..3 {
        let mut changed = jobs();
        changed[k].whens.push(when("day_of_week", "*"));
        let after = znappr::schedule::process_jobs(&znappr::config::Znappr { jobs: changed }, &june_first());
        assert_eq!(after.actions, before.actions);
        assert_eq!(after.fault, before.fault);
    }
    assert_eq!(before.actions, vec![JobAction::TakeSnapshot(0), JobAction::Purge(0)]);
    assert_eq!(before.fault, Some(2));
}

#[test]
fn removing_an_invalid_job_shifts_the_rest() {
    let jobs = || {
        vec![
            job("A", vec![]),
            job("bad prefix", vec![when("minute", "x")]),
            job("C", vec![when("minute", "15")]),
            job("D", vec![when("hour", "oops")]),
        ]
    };
    let before = znappr::schedule::process_jobs(&znappr::config::Znappr { jobs: jobs() }, &june_first());
    assert_eq!(
        before.actions,
        vec![JobAction::TakeSnapshot(0), JobAction::Purge(0), JobAction::TakeSnapshot(2), JobAction::Purge(2)]
    );
    assert_eq!(before.fault, Some(3));
    let mut without = jobs();
    without.remove(1);
    let after = znappr::schedule::process_jobs(&znappr::config::Znappr { jobs: without }, &june_first());
    assert_eq!(
        after.actions,
        vec![JobAction::TakeSnapshot(0), JobAction::Purge(0), JobAction::TakeSnapshot(1), JobAction::Purge(1)]
    );
    assert_eq!(after.fault, Some(2));
}

#[test]
fn adfix_refuses_separators_and_white_space() {
    assert!(adfix_is_valid("HOUR_____"));
    assert!(adfix_is_valid("v1.2-x"));
    assert!(adfix_is_valid("Ünïcödé٣"));
    for bad in ["A/B", "a@b", "x*", "A B", "a\tb", "a,b", "a:b"] {
        assert!(!adfix_is_valid(bad), "{}", bad);
    }
}

#[test]
fn comma_joined_values_match_when_either_does() {
    let pairs = [("1-3", "*/5"), ("0", "59"), ("*/7", "10-20"), ("30", "*")];
    for (a, b) in pairs {
        let joined = format!("{},{}", a, b);
        assert!(validate_when_value(&joined));
        for t in 0u32..120 {
            assert_eq!(check_values(&joined, t), check_values(a, t) || check_values(b, t));
        }
    }
}
