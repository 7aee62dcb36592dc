use vstd::prelude::*;
use crate::config::{Job, When, Znappr, adfix_valid, adfix_is_valid};
use crate::schedule::{
    value_valid, validate_when_value, job_outcome, field_value, when_outcome, whens_outcome,
    plan_from, Moment, lemma_invalid_label_never_runs, lemma_unknown_field_never_runs,
    lemma_valid_value_never_faults,
};
use crate::text::str_equals;

verus! {

/// What is wrong with a job of the configuration.
#[derive(PartialEq, Eq, Structural, Clone, Copy, Debug)]
pub enum FaultKind {
    /// The prefix holds a character not allowed in a snapshot label.
    InvalidPrefix,
    /// The postfix holds a character not allowed in a snapshot label.
    InvalidPostfix,
    /// The `when` at this index names an unknown field.
    UnknownField(usize),
    /// The `when` at this index has a value that is not acceptable.
    InvalidWhenValue(usize),
}

/// The first fault of a configuration: the index of the job and what is wrong.
#[derive(PartialEq, Eq, Structural, Clone, Copy, Debug)]
pub struct ConfigFault {
    pub job: usize,
    pub kind: FaultKind,
}

/// One of the six calendar fields that a `when` may test.
pub open spec fn known_field(f: Seq<char>) -> bool {
    ||| f == "minute"@
    ||| f == "hour"@
    ||| f == "day"@
    ||| f == "day_of_week"@
    ||| f == "day_of_year"@
    ||| f == "month"@
}

/// The first fault among the `whens` from index `k` on: for each `when`, its
/// field is checked before its value.
pub open spec fn whens_fault(ws: Seq<When>, k: int) -> Option<FaultKind>
    decreases ws.len() - k,
{
    if k < 0 || k >= ws.len() {
        None
    } else if !known_field(ws[k].field@) {
        Some(FaultKind::UnknownField(k as usize))
    } else if !value_valid(ws[k].value@) {
        Some(FaultKind::InvalidWhenValue(k as usize))
    } else {
        whens_fault(ws, k + 1)
    }
}

/// The first fault of a job: prefix, then postfix, then its `whens` in order.
pub open spec fn job_fault(job: Job) -> Option<FaultKind> {
    if !adfix_valid(job.prefix@) {
        Some(FaultKind::InvalidPrefix)
    } else if !adfix_valid(job.postfix@) {
        Some(FaultKind::InvalidPostfix)
    } else {
        whens_fault(job.whens@, 0)
    }
}

/// The first fault among the jobs from index `k` on, in the order the jobs are
/// listed; `Ok(())` when there is none.
pub open spec fn config_outcome(jobs: Seq<Job>, k: int) -> Result<(), ConfigFault>
    decreases jobs.len() - k,
{
    if k < 0 || k >= jobs.len() {
        Ok(())
    } else {
        match job_fault(jobs[k]) {
            Some(kind) => Err(ConfigFault { job: k as usize, kind }),
            None => config_outcome(jobs, k + 1),
        }
    }
}

fn is_known_field(f: &str) -> (r: bool)
    ensures
        r == known_field(f@),
{
    str_equals(f, "minute") || str_equals(f, "hour") || str_equals(f, "day") || str_equals(
        f,
        "day_of_week",
    ) || str_equals(f, "day_of_year") || str_equals(f, "month")
}

fn find_job_fault(job: &Job) -> (r: Option<FaultKind>)
    ensures
        r == job_fault(*job),
{
    if !adfix_is_valid(job.prefix.as_str()) {
        return Some(FaultKind::InvalidPrefix);
    }
    if !adfix_is_valid(job.postfix.as_str()) {
        return Some(FaultKind::InvalidPostfix);
    }
    let ghost ws = job.whens@;
    let mut k: usize = 0;
    while k < job.whens.len()
        invariant
            ws == job.whens@,
            adfix_valid(job.prefix@) && adfix_valid(job.postfix@),
            k <= ws.len(),
            job_fault(*job) == whens_fault(ws, k as int),
        decreases ws.len() - k,
    {
        let w = &job.whens[k];
        if !is_known_field(w.field.as_str()) {
            return Some(FaultKind::UnknownField(k));
        }
        if !validate_when_value(w.value.as_str()) {
            return Some(FaultKind::InvalidWhenValue(k));
        }
        k = k + 1;
    }
    None
}

/// Tests the configuration: jobs in order, and in each job the prefix, the
/// postfix, then each `when` (its field, then its value). Returns the first
/// fault found.
pub fn check_config(znappr: &Znappr) -> (r: Result<(), ConfigFault>)
    ensures
        r == config_outcome(znappr.jobs@, 0),
{
    let ghost js = znappr.jobs@;
    let mut k: usize = 0;
    while k < znappr.jobs.len()
        invariant
            js == znappr.jobs@,
            k <= js.len(),
            config_outcome(js, 0) == config_outcome(js, k as int),
        decreases js.len() - k,
    {
        match find_job_fault(&znappr.jobs[k]) {
            Some(kind) => return Err(ConfigFault { job: k, kind }),
            None => {},
        }
        k = k + 1;
    }
    Ok(())
}

/// The exit status of a configuration test: 2 when the configuration passes,
/// 3 for an invalid prefix or postfix, 4 for an unknown field, 5 for an
/// unacceptable `when` value.
pub fn configtest_exit_code(r: &Result<(), ConfigFault>) -> (code: i32)
    ensures
        code == match *r {
            Ok(()) => 2i32,
            Err(f) => match f.kind {
                FaultKind::InvalidPrefix | FaultKind::InvalidPostfix => 3i32,
                FaultKind::UnknownField(_) => 4i32,
                FaultKind::InvalidWhenValue(_) => 5i32,
            },
        },
{
    match r {
        Ok(()) => 2,
        Err(f) => match f.kind {
            FaultKind::InvalidPrefix | FaultKind::InvalidPostfix => 3,
            FaultKind::UnknownField(_) => 4,
            FaultKind::InvalidWhenValue(_) => 5,
        },
    }
}


proof fn lemma_config_fault_is_job_fault(jobs: Seq<Job>, k: int)
    requires
        0 <= k <= jobs.len() <= usize::MAX,
        config_outcome(jobs, k) is Err,
    ensures
        ({
            let f = config_outcome(jobs, k)->Err_0;
            &&& k <= f.job < jobs.len()
            &&& job_fault(jobs[f.job as int]) == Some(f.kind)
        }),
    decreases jobs.len() - k,
{
    if k < jobs.len() {
        if job_fault(jobs[k]) is None {
            lemma_config_fault_is_job_fault(jobs, k + 1);
        }
    }
}

proof fn lemma_whens_fault_kinds(ws: Seq<When>, k: int)
    requires
        0 <= k <= ws.len() <= usize::MAX,
        whens_fault(ws, k) is Some,
    ensures
        ({
            let kind = whens_fault(ws, k)->0;
            &&& kind is UnknownField || kind is InvalidWhenValue
            &&& kind matches FaultKind::UnknownField(i) ==> k <= i < ws.len() && !known_field(
                ws[i as int].field@,
            )
        }),
    decreases ws.len() - k,
{
    if k < ws.len() && known_field(ws[k].field@) && value_valid(ws[k].value@) {
        lemma_whens_fault_kinds(ws, k + 1);
    }
}

/// A job that the configuration test reports for its prefix, postfix or an
/// unknown field is a job that never runs: for a prefix or postfix, at no
/// moment; for an unknown field, at no moment at which its evaluation does not
/// fault.
pub proof fn lemma_reported_job_never_runs(znappr: Znappr, now: Moment)
    requires
        znappr.jobs@.len() <= usize::MAX,
        forall|j: int| 0 <= j < znappr.jobs@.len() ==> (#[trigger] znappr.jobs@[j]).whens@.len() <= usize::MAX,
        config_outcome(znappr.jobs@, 0) is Err,
    ensures
        ({
            let f = config_outcome(znappr.jobs@, 0)->Err_0;
            let job = znappr.jobs@[f.job as int];
            &&& f.job < znappr.jobs@.len()
            &&& (f.kind == FaultKind::InvalidPrefix || f.kind == FaultKind::InvalidPostfix)
                ==> job_outcome(job, now) == Some(false)
            &&& (f.kind is UnknownField && job_outcome(job, now) is Some) ==> job_outcome(job, now)
                == Some(false)
        }),
{
    let jobs = znappr.jobs@;
    lemma_config_fault_is_job_fault(jobs, 0);
    let f = config_outcome(jobs, 0)->Err_0;
    let job = jobs[f.job as int];
    if adfix_valid(job.prefix@) && adfix_valid(job.postfix@) {
        lemma_whens_fault_kinds(job.whens@, 0);
    }
    if f.kind == FaultKind::InvalidPrefix || f.kind == FaultKind::InvalidPostfix {
        lemma_invalid_label_never_runs(job, now);
    }
    if let FaultKind::UnknownField(i) = f.kind {
        if job_outcome(job, now) is Some {
            assert(field_value(job.whens@[i as int].field@, now) is None);
            lemma_unknown_field_never_runs(job, now, i as int);
        }
    }
}

proof fn lemma_clean_whens(ws: Seq<When>, k: int, now: Moment)
    requires
        0 <= k <= ws.len(),
        whens_fault(ws, k) is None,
    ensures
        forall|i: int| k <= i < ws.len() ==> known_field(#[trigger] ws[i].field@) && value_valid(ws[i].value@),
    decreases ws.len() - k,
{
    if k < ws.len() {
        lemma_clean_whens(ws, k + 1, now);
    }
}

proof fn lemma_whens_defined(ws: Seq<When>, now: Moment)
    requires
        forall|i: int| 0 <= i < ws.len() ==> known_field(#[trigger] ws[i].field@) && value_valid(ws[i].value@),
    ensures
        whens_outcome(ws, now) is Some,
        forall|i: int| 0 <= i < ws.len() ==> (#[trigger] when_outcome(ws[i], now)) is Some,
    decreases ws.len(),
{
    assert forall|i: int| 0 <= i < ws.len() implies (#[trigger] when_outcome(ws[i], now)) is Some by {
        assert(known_field(ws[i].field@) && value_valid(ws[i].value@));
        assert(field_value(ws[i].field@, now) is Some);
        let t = field_value(ws[i].field@, now)->0;
        lemma_valid_value_never_faults(ws[i].value@, t);
    }
    if ws.len() > 0 {
        let rest = ws.drop_first();
        assert forall|i: int| 0 <= i < rest.len() implies known_field(#[trigger] rest[i].field@) && value_valid(rest[i].value@) by {
            assert(rest[i] == ws[i + 1]);
        }
        lemma_whens_defined(rest, now);
        assert(when_outcome(ws[0], now) is Some);
    }
}

proof fn lemma_clean_config(jobs: Seq<Job>, k: int, now: Moment)
    requires
        0 <= k <= jobs.len(),
        config_outcome(jobs, k) == Ok::<(), ConfigFault>(()),
    ensures
        forall|j: int| k <= j < jobs.len() ==> #[trigger] job_fault(jobs[j]) is None,
        plan_from(jobs, now, k).1 is None,
    decreases jobs.len() - k,
{
    if k < jobs.len() {
        lemma_clean_config(jobs, k + 1, now);
        let job = jobs[k];
        lemma_clean_whens(job.whens@, 0, now);
        lemma_whens_defined(job.whens@, now);
    }
}

/// A configuration that passes the configuration test runs without faults at
/// every moment: every job has valid labels, every `when` names a known field
/// and evaluates without fault, and the run plan stops at no job.
pub proof fn lemma_passing_config_never_faults(znappr: Znappr, now: Moment)
    requires
        config_outcome(znappr.jobs@, 0) == Ok::<(), ConfigFault>(()),
    ensures
        plan_from(znappr.jobs@, now, 0).1 is None,
        forall|j: int|
            0 <= j < znappr.jobs@.len() ==> {
                let job = #[trigger] znappr.jobs@[j];
                &&& adfix_valid(job.prefix@) && adfix_valid(job.postfix@)
                &&& job_outcome(job, now) is Some
                &&& forall|i: int|
                    0 <= i < job.whens@.len() ==> (#[trigger] field_value(
                        job.whens@[i].field@,
                        now,
                    )) is Some && (when_outcome(job.whens@[i], now)) is Some
            },
{
    let jobs = znappr.jobs@;
    lemma_clean_config(jobs, 0, now);
    assert forall|j: int| 0 <= j < jobs.len() implies {
        let job = #[trigger] jobs[j];
        &&& adfix_valid(job.prefix@) && adfix_valid(job.postfix@)
        &&& job_outcome(job, now) is Some
        &&& forall|i: int|
            0 <= i < job.whens@.len() ==> (#[trigger] field_value(job.whens@[i].field@, now)) is Some
                && (when_outcome(job.whens@[i], now)) is Some
    } by {
        let job = jobs[j];
        assert(job_fault(job) is None);
        lemma_clean_whens(job.whens@, 0, now);
        lemma_whens_defined(job.whens@, now);
    }
}

} // verus!
