use znappr::cli::{parse_args, Invocation, Verbosity};
use znappr::config::{Job, PurgeRule, When, Znappr};
use znappr::configtest::{check_config, configtest_exit_code, ConfigFault, FaultKind};
use znappr::filesystem::{get_filesystem, get_home, get_root};
use znappr::generic::{generic_config, GenericConfigError};
use znappr::schedule::{try_job_should_run, Moment};

fn when(field: &str, value: &str) -> When {
    When { field: field.to_string(), value: value.to_string() }
}

fn job(prefix: &str, postfix: &str, whens: Vec<When>) -> Job {
    Job {
        comment: vec!["a job".to_string()],
        dataset: "zroot/home".to_string(),
        recursive: false,
        prefix: prefix.to_string(),
        postfix: postfix.to_string(),
        date_format: "%Y".to_string(),
        pre_date: true,
        whens,
        purge_rule: PurgeRule { unit: "none".to_string(), value: "0".to_string() },
    }
}

#[test]
fn configtest_passes_good_config() {
    let z = Znappr {
        jobs: vec![
            job("HOUR_", "", vec![when("minute", "0"), when("hour", "*")]),
            job("DAY_", "_x", vec![when("day", "1-31"), when("month", "*/3")]),
        ],
    };
    let r = check_config(&z);
    assert_eq!(r, Ok(()));
    assert_eq!(configtest_exit_code(&r), 2);
}

#[test]
fn configtest_reports_invalid_prefix() {
    let z = Znappr { jobs: vec![job("OK", "", vec![]), job("B@D", "", vec![])] };
    let r = check_config(&z);
    assert_eq!(r, Err(ConfigFault { job: 1, kind: FaultKind::InvalidPrefix }));
    assert_eq!(configtest_exit_code(&r), 3);
}

#[test]
fn configtest_reports_invalid_postfix() {
    let z = Znappr { jobs: vec![job("OK", "a b", vec![])] };
    let r = check_config(&z);
    assert_eq!(r, Err(ConfigFault { job: 0, kind: FaultKind::InvalidPostfix }));
    assert_eq!(configtest_exit_code(&r), 3);
}

#[test]
fn configtest_reports_unknown_field() {
    let z = Znappr { jobs: vec![job("OK", "", vec![when("minute", "5"), when("weekday", "1")])] };
    let r = check_config(&z);
    assert_eq!(r, Err(ConfigFault { job: 0, kind: FaultKind::UnknownField(1) }));
    assert_eq!(configtest_exit_code(&r), 4);
}

#[test]
fn configtest_reports_invalid_when_value() {
    let z = Znappr { jobs: vec![job("OK", "", vec![when("minute", "5"), when("hour", "1001")])] };
    let r = check_config(&z);
    assert_eq!(r, Err(ConfigFault { job: 0, kind: FaultKind::InvalidWhenValue(1) }));
    assert_eq!(configtest_exit_code(&r), 5);
}

#[test]
fn configtest_field_is_checked_before_value() {
    let z = Znappr { jobs: vec![job("OK", "", vec![when("year", "x")])] };
    assert_eq!(check_config(&z), Err(ConfigFault { job: 0, kind: FaultKind::UnknownField(0) }));
    let z = Znappr { jobs: vec![job("OK", "", vec![when("minute", "x")])] };
    assert_eq!(check_config(&z), Err(ConfigFault { job: 0, kind: FaultKind::InvalidWhenValue(0) }));
}

const LISTING: &str = "NAME                MOUNTPOINT\nzroot               /zroot\nzroot/ROOT          none\nzroot/ROOT/default  /\nzroot/home          /home\nzroot/home/alice    /home/alice\nzroot/ROOT/clone    /\n";

#[test]
fn finds_root_and_home_datasets() {
    assert_eq!(get_root(LISTING), "zroot/ROOT/default");
    assert_eq!(get_home(LISTING), "zroot/home");
    assert_eq!(get_filesystem(LISTING, "/home/alice"), Some("zroot/home/alice".to_string()));
    assert_eq!(get_filesystem(LISTING, "/var"), None);
    assert_eq!(get_filesystem("", "/"), None);
}

#[test]
fn generic_config_fills_in_datasets() {
    let text = generic_config("zroot/ROOT/default", "zroot/home").unwrap();
    assert!(text.starts_with("{\n\t\"comment\":[\"Znappr configuration.\"],"));
    assert_eq!(text.matches("\"dataset\": \"zroot/home\"").count(), 3);
    assert_eq!(text.matches("\"dataset\": \"zroot/ROOT/default\"").count(), 1);
    assert!(text.ends_with("\"purge_rule\": {\"unit\":\"count\", \"value\":\"8\"}\n\t\t}\n\t]\n}\n"));
    assert!(text.contains("\"prefix\": \"QUARTER__\""));
}

#[test]
fn generic_config_needs_pool_paths() {
    assert_eq!(generic_config("zroot", "zroot/home"), Err(GenericConfigError::RootNotInPool));
    assert_eq!(generic_config("zroot/ROOT", "home"), Err(GenericConfigError::HomeNotInPool));
    assert_eq!(generic_config("root", "home"), Err(GenericConfigError::RootNotInPool));
}

fn args(a: &[&str]) -> Vec<String> {
    a.iter().map(|s| s.to_string()).collect()
}

#[test]
fn parse_args_defaults() {
    match parse_args(&args(&["znappr"])) {
        Invocation::Run(o) => {
            assert_eq!(o.verbosity, Verbosity::Info);
            assert!(!o.configtest);
            assert_eq!(o.config_path, "/usr/local/etc/znappr/znappr.json");
            assert_eq!(o.fake_date, None);
        }
        _ => panic!("expected a run"),
    }
}

#[test]
fn parse_args_reads_options() {
    match parse_args(&args(&["znappr", "-f", "/etc/z.json", "-vv", "--configtest", "--date", "2025-06-01-00:15"])) {
        Invocation::Run(o) => {
            assert_eq!(o.verbosity, Verbosity::Trace);
            assert!(o.configtest);
            assert_eq!(o.config_path, "/etc/z.json");
            assert_eq!(o.fake_date, Some("2025-06-01-00:15".to_string()));
        }
        _ => panic!("expected a run"),
    }
    match parse_args(&args(&["znappr", "-vv", "-v", "-c", "-f"])) {
        Invocation::Run(o) => {
            assert_eq!(o.verbosity, Verbosity::Debug);
            assert!(o.configtest);
            assert_eq!(o.config_path, "/usr/local/etc/znappr/znappr.json");
        }
        _ => panic!("expected a run"),
    }
}

#[test]
fn parse_args_operand_is_not_an_option() {
    match parse_args(&args(&["znappr", "-f", "-h"])) {
        Invocation::Run(o) => assert_eq!(o.config_path, "-h"),
        _ => panic!("expected a run"),
    }
}

#[test]
fn parse_args_immediate_actions() {
    assert!(matches!(parse_args(&args(&["znappr", "-h", "-x"])), Invocation::Usage));
    assert!(matches!(parse_args(&args(&["znappr", "--help"])), Invocation::Usage));
    assert!(matches!(parse_args(&args(&["znappr", "-v", "-j"])), Invocation::ConfigFormat));
    assert!(matches!(parse_args(&args(&["znappr", "-p", "-h"])), Invocation::GenericConfig));
    match parse_args(&args(&["znappr", "-v", "--bogus", "-h"])) {
        Invocation::UnknownArgument(a) => assert_eq!(a, "--bogus"),
        _ => panic!("expected an unknown argument"),
    }
}

#[test]
fn reported_jobs_never_run() {
    let now = Moment {
        year: 2025, month: 1, day: 1, day_of_year: 1, day_of_week: 4, hour: 0, minute: 0,
        timestamp: 1735689600, utc_offset: 0, pre_utc_offset: 0, pre_year: 2024, pre_month: 12,
        pre_day: 31,
    };
    let bad_label = job("B@D", "", vec![when("minute", "*")]);
    let z = Znappr { jobs: vec![bad_label] };
    assert_eq!(check_config(&z), Err(ConfigFault { job: 0, kind: FaultKind::InvalidPrefix }));
    assert_eq!(try_job_should_run(&z.jobs[0], &now), Some(false));
    let unknown = job("OK", "", vec![when("minute", "*"), when("second", "*")]);
    let z = Znappr { jobs: vec![unknown] };
    assert_eq!(check_config(&z), Err(ConfigFault { job: 0, kind: FaultKind::UnknownField(1) }));
    assert_eq!(try_job_should_run(&z.jobs[0], &now), Some(false));
}
