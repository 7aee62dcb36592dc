use vstd::prelude::*;
use crate::config::{Job, When, Znappr, adfix_valid, adfix_is_valid};
use crate::text::{
    lemma_split_on_join, lemma_split_on_without_sep, split_on, char_views, chars_of, split_chars, parse_u32, parse_u32_chars, str_equals,
};

verus! {

/// One comma-separated part of a `when` value, as the scheduler reads it.
#[derive(PartialEq, Eq, Structural, Clone, Copy, Debug)]
pub enum WhenPart {
    /// `*`: any value.
    Any,
    /// `a-b`: any value from `a` to `b`, both included.
    Range(u32, u32),
    /// `x/d`: any value divisible by `d` (what stands before the `/` is not read).
    Step(u32),
    /// `n`: exactly `n`.
    Single(u32),
    /// A part whose numbers do not parse; reading it is a fault.
    Malformed,
}

/// How a part is read: `*` first, then a `-` range when the part splits in two
/// on `-`, then a `/` step when it splits in two on `/`, else a single number.
pub open spec fn when_part(p: Seq<char>) -> WhenPart {
    if p == seq!['*'] {
        WhenPart::Any
    } else if split_on(p, '-').len() == 2 {
        let r = split_on(p, '-');
        match (parse_u32(r[0]), parse_u32(r[1])) {
            (Some(a), Some(b)) => WhenPart::Range(a, b),
            _ => WhenPart::Malformed,
        }
    } else if split_on(p, '/').len() == 2 {
        match parse_u32(split_on(p, '/')[1]) {
            Some(d) => WhenPart::Step(d),
            None => WhenPart::Malformed,
        }
    } else {
        match parse_u32(p) {
            Some(n) => WhenPart::Single(n),
            None => WhenPart::Malformed,
        }
    }
}

/// Whether a part matches the time value `t`; `None` where the part cannot be
/// evaluated (it does not parse, or it is a step of zero).
pub open spec fn part_matches(w: WhenPart, t: u32) -> Option<bool> {
    match w {
        WhenPart::Any => Some(true),
        WhenPart::Range(a, b) => Some(a <= t && t <= b),
        WhenPart::Step(d) => if d == 0 {
            None
        } else {
            Some(t % d == 0)
        },
        WhenPart::Single(n) => Some(n == t),
        WhenPart::Malformed => None,
    }
}

/// Whether a part is acceptable in a configuration: one of the documented
/// forms, with numbers at most 1000 and a step from 1 to 1000. A part that does
/// not parse is not acceptable.
pub open spec fn part_valid(w: WhenPart) -> bool {
    match w {
        WhenPart::Any => true,
        WhenPart::Range(a, b) => a <= 1000 && b <= 1000,
        WhenPart::Step(d) => 0 < d && d <= 1000,
        WhenPart::Single(n) => n <= 1000,
        WhenPart::Malformed => false,
    }
}

/// The parts are read in order until one satisfies `f`; a part on which `f` is
/// undefined, reached before any part satisfied `f`, makes the whole undefined.
pub open spec fn first_hit(parts: Seq<Seq<char>>, f: spec_fn(WhenPart) -> Option<bool>) -> Option<
    bool,
>
    decreases parts.len(),
{
    if parts.len() == 0 {
        Some(false)
    } else {
        match f(when_part(parts[0])) {
            None => None,
            Some(true) => Some(true),
            Some(false) => first_hit(parts.drop_first(), f),
        }
    }
}

/// Whether the `when` value `value` matches the time value `t`, or `None` where
/// evaluating it faults.
pub open spec fn check_values_outcome(value: Seq<char>, t: u32) -> Option<bool> {
    first_hit(split_on(value, ','), |w: WhenPart| part_matches(w, t))
}

/// Whether the `when` value `value` is acceptable: every one of its
/// comma-separated parts is.
pub open spec fn value_valid(value: Seq<char>) -> bool {
    forall|i: int|
        0 <= i < split_on(value, ',').len() ==> #[trigger] part_valid(
            when_part(split_on(value, ',')[i]),
        )
}

/// Reads one part of a `when` value.
pub fn parse_part(p: &Vec<char>) -> (r: WhenPart)
    ensures
        r == when_part(p@),
{
    if p.len() == 1 && p[0] == '*' {
        assert(p@ =~= seq!['*']);
        return WhenPart::Any;
    }
    assert(p@ != seq!['*']) by {
        if p@ == seq!['*'] {
            assert(p@.len() == 1 && p@[0] == '*');
        }
    }
    let range = split_chars(p, '-');
    if range.len() == 2 {
        let first = parse_u32_chars(&range[0]);
        let last = parse_u32_chars(&range[1]);
        match (first, last) {
            (Some(a), Some(b)) => return WhenPart::Range(a, b),
            _ => return WhenPart::Malformed,
        }
    }
    let num_denom = split_chars(p, '/');
    if num_denom.len() == 2 {
        match parse_u32_chars(&num_denom[1]) {
            Some(d) => return WhenPart::Step(d),
            None => return WhenPart::Malformed,
        }
    }
    match parse_u32_chars(p) {
        Some(n) => WhenPart::Single(n),
        None => WhenPart::Malformed,
    }
}

fn part_matches_exec(w: WhenPart, t: u32) -> (r: Option<bool>)
    ensures
        r == part_matches(w, t),
{
    match w {
        WhenPart::Any => Some(true),
        WhenPart::Range(a, b) => Some(a <= t && t <= b),
        WhenPart::Step(d) => if d == 0 {
            None
        } else {
            Some(t % d == 0)
        },
        WhenPart::Single(n) => Some(n == t),
        WhenPart::Malformed => None,
    }
}

fn part_valid_exec(w: WhenPart) -> (r: bool)
    ensures
        r == part_valid(w),
{
    match w {
        WhenPart::Any => true,
        WhenPart::Range(a, b) => a <= 1000 && b <= 1000,
        WhenPart::Step(d) => 0 < d && d <= 1000,
        WhenPart::Single(n) => n <= 1000,
        WhenPart::Malformed => false,
    }
}

/// Whether `value` matches the time value `time_part`; `None` exactly where
/// the evaluation faults (a part that does not parse, or a step of zero,
/// reached before a matching part).
pub fn try_check_values(value: &str, time_part: u32) -> (r: Option<bool>)
    ensures
        r == check_values_outcome(value@, time_part),
{
    let chars = chars_of(value);
    let parts = split_chars(&chars, ',');
    let ghost f = |w: WhenPart| part_matches(w, time_part);
    let ghost v = char_views(parts@);
    let mut i: usize = 0;
    assert(v.skip(0) =~= v);
    while i < parts.len()
        invariant
            v == char_views(parts@),
            v == split_on(value@, ','),
            f == (|w: WhenPart| part_matches(w, time_part)),
            i <= parts.len(),
            check_values_outcome(value@, time_part) == first_hit(v.skip(i as int), f),
        decreases parts.len() - i,
    {
        assert(v.skip(i as int).drop_first() =~= v.skip(i as int + 1));
        assert(v.skip(i as int)[0] == parts@[i as int]@);
        let w = parse_part(&parts[i]);
        match part_matches_exec(w, time_part) {
            None => return None,
            Some(true) => return Some(true),
            Some(false) => {},
        }
        i = i + 1;
    }
    Some(false)
}

/// Whether the `when` value `value` matches the time value `time_part`: the
/// comma-separated parts are tried in order and the first one that matches
/// decides. The value must be one whose evaluation does not fault.
pub fn check_values(value: &str, time_part: u32) -> (r: bool)
    requires
        check_values_outcome(value@, time_part) is Some,
    ensures
        r == check_values_outcome(value@, time_part)->0,
{
    try_check_values(value, time_part).unwrap()
}

/// Whether the `when` value `value` is acceptable in a configuration: every
/// comma-separated part is `*`, a range with both ends at most 1000, a step
/// from 1 to 1000, or a number at most 1000. A part that does not parse makes
/// the value unacceptable.
pub fn validate_when_value(value: &str) -> (r: bool)
    ensures
        r == value_valid(value@),
{
    let chars = chars_of(value);
    let parts = split_chars(&chars, ',');
    let ghost v = char_views(parts@);
    let mut i: usize = 0;
    while i < parts.len()
        invariant
            v == char_views(parts@),
            v == split_on(value@, ','),
            i <= parts.len(),
            forall|j: int| 0 <= j < i ==> #[trigger] part_valid(when_part(v[j])),
        decreases parts.len() - i,
    {
        assert(v[i as int] == parts@[i as int]@);
        let w = parse_part(&parts[i]);
        if !part_valid_exec(w) {
            return false;
        }
        i = i + 1;
    }
    true
}

/// A value that passes validation never faults when it is evaluated, at any
/// time value, and it matches a time value exactly when one of its parts does.
pub proof fn lemma_valid_value_never_faults(value: Seq<char>, t: u32)
    requires
        value_valid(value),
    ensures
        check_values_outcome(value, t) == Some(
            exists|i: int|
                0 <= i < split_on(value, ',').len() && #[trigger] part_matches(
                    when_part(split_on(value, ',')[i]),
                    t,
                ) == Some(true),
        ),
{
    let parts = split_on(value, ',');
    assert forall|i: int| 0 <= i < parts.len() implies (#[trigger] part_matches(
        when_part(parts[i]),
        t,
    )) is Some by {
        assert(part_valid(when_part(parts[i])));
    }
    lemma_check_values_any_part(value, t);
}

/// What each form of part means for a time value `t`: `*` matches every
/// value, a number matches itself, a range `a-b` matches the values from `a`
/// to `b` inclusive, and a step `*/d` matches the multiples of `d`; a step of
/// zero and a malformed part cannot be evaluated.
pub proof fn lemma_part_meanings(t: u32)
    ensures
        part_matches(WhenPart::Any, t) == Some(true),
        forall|n: u32| #[trigger] part_matches(WhenPart::Single(n), t) == Some(n == t),
        forall|a: u32, b: u32| #[trigger] part_matches(WhenPart::Range(a, b), t) == Some(a <= t && t <= b),
        forall|d: u32|
            d > 0 ==> #[trigger] part_matches(WhenPart::Step(d), t) == Some(
                exists|k: int| 0 <= k && t == #[trigger] (k * d),
            ),
        part_matches(WhenPart::Step(0), t) is None,
        part_matches(WhenPart::Malformed, t) is None,
{
    assert forall|d: u32| d > 0 implies #[trigger] part_matches(WhenPart::Step(d), t) == Some(
        exists|k: int| 0 <= k && t == #[trigger] (k * d),
    ) by {
        let k = t as int / d as int;
        vstd::arithmetic::div_mod::lemma_fundamental_div_mod(t as int, d as int);
        if t % d == 0 {
            assert(t == k * d) by (nonlinear_arith)
                requires
                    t == d * k + t % d,
                    t % d == 0,
            ;
            assert(0 <= k) by (nonlinear_arith)
                requires
                    k == t as int / d as int,
                    d > 0,
            ;
        }
        if exists|j: int| 0 <= j && t == #[trigger] (j * d) {
            let j = choose|j: int| 0 <= j && t == #[trigger] (j * d);
            vstd::arithmetic::div_mod::lemma_mod_multiples_basic(j, d as int);
            assert((j * d) % (d as int) == 0);
        }
    }
}

/// A step value `*/d`, with `d` a number greater than zero, matches a time
/// value exactly when that value is a multiple of `d`.
pub proof fn lemma_step_value_matches_multiples(q: Seq<char>, d: u32, t: u32)
    requires
        parse_u32(q) == Some(d),
        d > 0,
        forall|i: int| 0 <= i < q.len() ==> q[i] != ',' && q[i] != '-' && q[i] != '/',
    ensures
        check_values_outcome(seq!['*', '/'] + q, t) == Some(exists|k: int| 0 <= k && t == #[trigger] (k * d)),
{
    let p = seq!['*', '/'] + q;
    assert(p == seq!['*'] + seq!['/'] + q);
    assert forall|i: int| 0 <= i < p.len() implies p[i] != ',' && p[i] != '-' by {
        if i >= 2 {
            assert(p[i] == q[i - 2]);
        }
    }
    lemma_split_on_without_sep(p, ',');
    lemma_split_on_without_sep(p, '-');
    lemma_split_on_without_sep(seq!['*'], '/');
    lemma_split_on_without_sep(q, '/');
    lemma_split_on_join(seq!['*'], q, '/');
    assert(split_on(p, '/') =~= seq![seq!['*'], q]);
    assert(p != seq!['*']) by {
        assert(p.len() != 1);
    }
    assert(when_part(p) == WhenPart::Step(d));
    reveal_with_fuel(first_hit, 2);
    assert(seq![p].drop_first() =~= Seq::<Seq<char>>::empty());
    lemma_part_meanings(t);
    assert(part_matches(WhenPart::Step(d), t) == Some(exists|k: int| 0 <= k && t == #[trigger] (k * d)));
}

/// Two acceptable `when` values joined with a comma make an acceptable value,
/// and it matches a time value exactly when either of the two does.
pub proof fn lemma_comma_join_matches_either(a: Seq<char>, b: Seq<char>, t: u32)
    requires
        value_valid(a),
        value_valid(b),
    ensures
        value_valid(a + seq![','] + b),
        check_values_outcome(a + seq![','] + b, t) is Some,
        check_values_outcome(a, t) is Some,
        check_values_outcome(b, t) is Some,
        check_values_outcome(a + seq![','] + b, t)->0 == (check_values_outcome(a, t)->0
            || check_values_outcome(b, t)->0),
{
    let j = a + seq![','] + b;
    let pa = split_on(a, ',');
    let pb = split_on(b, ',');
    lemma_split_on_join(a, b, ',');
    let pj = split_on(j, ',');
    assert(pj == pa + pb);
    assert forall|i: int| 0 <= i < pj.len() implies #[trigger] part_valid(when_part(pj[i])) by {
        if i < pa.len() {
            assert(pj[i] == pa[i]);
            assert(part_valid(when_part(pa[i])));
        } else {
            assert(pj[i] == pb[i - pa.len()]);
            assert(part_valid(when_part(pb[i - pa.len()])));
        }
    }
    lemma_valid_value_never_faults(a, t);
    lemma_valid_value_never_faults(b, t);
    lemma_valid_value_never_faults(j, t);
    if exists|i: int| 0 <= i < pj.len() && #[trigger] part_matches(when_part(pj[i]), t) == Some(true) {
        let i = choose|i: int| 0 <= i < pj.len() && #[trigger] part_matches(when_part(pj[i]), t) == Some(true);
        if i < pa.len() {
            assert(pj[i] == pa[i]);
            assert(part_matches(when_part(pa[i]), t) == Some(true));
        } else {
            assert(pj[i] == pb[i - pa.len()]);
            assert(part_matches(when_part(pb[i - pa.len()]), t) == Some(true));
        }
    }
    if exists|i: int| 0 <= i < pa.len() && #[trigger] part_matches(when_part(pa[i]), t) == Some(true) {
        let i = choose|i: int| 0 <= i < pa.len() && #[trigger] part_matches(when_part(pa[i]), t) == Some(true);
        assert(pj[i] == pa[i]);
        assert(part_matches(when_part(pj[i]), t) == Some(true));
    }
    if exists|i: int| 0 <= i < pb.len() && #[trigger] part_matches(when_part(pb[i]), t) == Some(true) {
        let i = choose|i: int| 0 <= i < pb.len() && #[trigger] part_matches(when_part(pb[i]), t) == Some(true);
        assert(pj[pa.len() + i] == pb[i]);
        assert(part_matches(when_part(pj[pa.len() + i]), t) == Some(true));
    }
}

/// The calendar values of the moment at which the jobs are evaluated, and the
/// date that a pre-dated snapshot is labelled with.
pub struct Moment {
    pub year: i32,
    pub month: u32,
    pub day: u32,
    /// Day of the year, 1 to 366.
    pub day_of_year: u32,
    /// Day of the week, 1 (Sunday) to 7.
    pub day_of_week: u32,
    pub hour: u32,
    pub minute: u32,
    /// Seconds since the Unix epoch.
    pub timestamp: i64,
    /// Seconds the local time zone is ahead of UTC at this moment.
    pub utc_offset: i32,
    /// Seconds the local time zone is ahead of UTC one hour earlier.
    pub pre_utc_offset: i32,
    /// The date of the moment one hour earlier.
    pub pre_year: i32,
    pub pre_month: u32,
    pub pre_day: u32,
}

/// The value of `now` that a `when` field names; `None` for an unknown field.
pub open spec fn field_value(field: Seq<char>, now: Moment) -> Option<u32> {
    if field == "minute"@ {
        Some(now.minute)
    } else if field == "hour"@ {
        Some(now.hour)
    } else if field == "day"@ {
        Some(now.day)
    } else if field == "day_of_week"@ {
        Some(now.day_of_week)
    } else if field == "day_of_year"@ {
        Some(now.day_of_year)
    } else if field == "month"@ {
        Some(now.month)
    } else {
        None
    }
}

/// Whether one `when` holds at `now`: an unknown field never holds.
pub open spec fn when_outcome(w: When, now: Moment) -> Option<bool> {
    match field_value(w.field@, now) {
        Some(t) => check_values_outcome(w.value@, t),
        None => Some(false),
    }
}

/// Whether all `whens` hold at `now`; every one of them is evaluated, so a
/// fault in any of them makes the whole undefined.
pub open spec fn whens_outcome(ws: Seq<When>, now: Moment) -> Option<bool>
    decreases ws.len(),
{
    if ws.len() == 0 {
        Some(true)
    } else {
        match when_outcome(ws[0], now) {
            None => None,
            Some(b) => match whens_outcome(ws.drop_first(), now) {
                None => None,
                Some(c) => Some(b && c),
            },
        }
    }
}

/// Whether `job` runs at `now`: its prefix and postfix are valid and all its
/// `whens` hold.
pub open spec fn job_outcome(job: Job, now: Moment) -> Option<bool> {
    if !adfix_valid(job.prefix@) || !adfix_valid(job.postfix@) {
        Some(false)
    } else {
        whens_outcome(job.whens@, now)
    }
}

fn field_value_exec(field: &str, now: &Moment) -> (r: Option<u32>)
    ensures
        r == field_value(field@, *now),
{
    if str_equals(field, "minute") {
        Some(now.minute)
    } else if str_equals(field, "hour") {
        Some(now.hour)
    } else if str_equals(field, "day") {
        Some(now.day)
    } else if str_equals(field, "day_of_week") {
        Some(now.day_of_week)
    } else if str_equals(field, "day_of_year") {
        Some(now.day_of_year)
    } else if str_equals(field, "month") {
        Some(now.month)
    } else {
        None
    }
}

/// Whether `job` runs at `now`; `None` exactly where evaluating one of its
/// `whens` faults.
pub fn try_job_should_run(job: &Job, now: &Moment) -> (r: Option<bool>)
    ensures
        r == job_outcome(*job, *now),
{
    if !adfix_is_valid(job.prefix.as_str()) || !adfix_is_valid(job.postfix.as_str()) {
        return Some(false);
    }
    let ghost ws = job.whens@;
    let mut runjob = true;
    let mut i: usize = 0;
    assert(ws.skip(0) =~= ws);
    while i < job.whens.len()
        invariant
            ws == job.whens@,
            adfix_valid(job.prefix@) && adfix_valid(job.postfix@),
            i <= ws.len(),
            whens_outcome(ws, *now) == match whens_outcome(ws.skip(i as int), *now) {
                None => None,
                Some(c) => Some(runjob && c),
            },
        decreases ws.len() - i,
    {
        assert(ws.skip(i as int).drop_first() =~= ws.skip(i as int + 1));
        assert(ws.skip(i as int)[0] == ws[i as int]);
        let w = &job.whens[i];
        let condition = match field_value_exec(w.field.as_str(), now) {
            Some(t) => match try_check_values(w.value.as_str(), t) {
                Some(b) => b,
                None => {
                    assert(when_outcome(ws[i as int], *now) is None);
                    assert(whens_outcome(ws.skip(i as int), *now) is None);
                    return None;
                },
            },
            None => false,
        };
        runjob = runjob && condition;
        i = i + 1;
    }
    Some(runjob)
}

/// Whether `job` runs at `now`: it runs when its prefix and postfix are valid
/// and every one of its `whens` holds. The job must be one whose evaluation
/// does not fault.
pub fn job_should_run(job: &Job, now: &Moment) -> (r: bool)
    requires
        job_outcome(*job, *now) is Some,
    ensures
        r == job_outcome(*job, *now)->0,
{
    try_job_should_run(job, now).unwrap()
}

/// One step of a run.
#[derive(PartialEq, Eq, Structural, Clone, Copy, Debug)]
pub enum JobAction {
    /// Take the snapshot of the job at this index.
    TakeSnapshot(usize),
    /// Purge the old snapshots of the job at this index.
    Purge(usize),
}

/// The steps of a run at a moment, in order, and where the evaluation of the
/// jobs stops on a fault.
pub struct JobsPlan {
    /// The steps, in order: for each job that runs, in the configuration's
    /// order, its snapshot and then its purge.
    pub actions: Vec<JobAction>,
    /// The index of the job whose evaluation faults; no job after it is
    /// evaluated. The steps come before the fault.
    pub fault: Option<usize>,
}

/// The steps for the jobs `run`, in order: each job's snapshot, then its purge.
pub open spec fn actions_of(run: Seq<usize>) -> Seq<JobAction> {
    Seq::new(
        2 * run.len(),
        |i: int|
            if i % 2 == 0 {
                JobAction::TakeSnapshot(run[i / 2])
            } else {
                JobAction::Purge(run[i / 2])
            },
    )
}

/// The plan for the jobs from index `k` on: each job is evaluated in turn, a
/// job that runs is listed, and the first job whose evaluation faults ends the
/// plan.
pub open spec fn plan_from(jobs: Seq<Job>, now: Moment, k: int) -> (Seq<usize>, Option<usize>)
    decreases jobs.len() - k,
{
    if k < 0 || k >= jobs.len() {
        (Seq::<usize>::empty(), None)
    } else {
        match job_outcome(jobs[k], now) {
            None => (Seq::<usize>::empty(), Some(k as usize)),
            Some(true) => {
                let rest = plan_from(jobs, now, k + 1);
                (seq![k as usize] + rest.0, rest.1)
            },
            Some(false) => plan_from(jobs, now, k + 1),
        }
    }
}

/// Decides, job by job in the configuration's order, which jobs run at `now`,
/// and plans a snapshot then a purge for each of them; the evaluation stops at
/// the first job whose `whens` fault.
pub fn process_jobs(znappr: &Znappr, now: &Moment) -> (r: JobsPlan)
    ensures
        r.actions@ == actions_of(plan_from(znappr.jobs@, *now, 0).0),
        r.fault == plan_from(znappr.jobs@, *now, 0).1,
{
    let ghost js = znappr.jobs@;
    let ghost mut run: Seq<usize> = Seq::empty();
    let mut actions: Vec<JobAction> = Vec::new();
    let mut k: usize = 0;
    assert(actions@ =~= actions_of(run));
    while k < znappr.jobs.len()
        invariant
            js == znappr.jobs@,
            k <= js.len(),
            actions@ == actions_of(run),
            plan_from(js, *now, 0) == ({
                let rest = plan_from(js, *now, k as int);
                (run + rest.0, rest.1)
            }),
        decreases js.len() - k,
    {
        match try_job_should_run(&znappr.jobs[k], now) {
            None => {
                assert(run + Seq::<usize>::empty() =~= run);
                return JobsPlan { actions, fault: Some(k) };
            },
            Some(true) => {
                let ghost before = run;
                actions.push(JobAction::TakeSnapshot(k));
                actions.push(JobAction::Purge(k));
                proof {
                    run = run.push(k);
                    assert(actions@ =~= actions_of(run)) by {
                        assert forall|i: int| 0 <= i < actions@.len() implies actions@[i]
                            == actions_of(run)[i] by {
                            if i < 2 * before.len() {
                                assert(i / 2 < before.len()) by (nonlinear_arith)
                                    requires
                                        0 <= i < 2 * before.len(),
                                ;
                                assert(run[i / 2] == before[i / 2]);
                            } else {
                                assert(i / 2 == before.len()) by (nonlinear_arith)
                                    requires
                                        2 * before.len() <= i < 2 * before.len() + 2,
                                ;
                            }
                        }
                    }
                    assert(before + (seq![k] + plan_from(js, *now, k + 1).0) =~= run
                        + plan_from(js, *now, k + 1).0);
                }
            },
            Some(false) => {},
        }
        k = k + 1;
    }
    assert(run + Seq::<usize>::empty() =~= run);
    JobsPlan { actions, fault: None }
}

/// The jobs a plan runs are exactly the jobs, before the first faulting one,
/// whose evaluation says they run; they are listed in increasing order.
pub proof fn lemma_plan_runs_exactly_the_due_jobs(jobs: Seq<Job>, now: Moment, k: int)
    requires
        0 <= k <= jobs.len() <= usize::MAX,
    ensures
        ({
            let (run, fault) = plan_from(jobs, now, k);
            let stop = match fault {
                Some(f) => f as int,
                None => jobs.len() as int,
            };
            &&& k <= stop <= jobs.len()
            &&& (fault matches Some(f) ==> job_outcome(jobs[f as int], now) is None)
            &&& forall|j: int| k <= j < stop ==> (#[trigger] job_outcome(jobs[j], now)) is Some
            &&& forall|i: int, j: int| 0 <= i < j < run.len() ==> run[i] < run[j]
            &&& forall|i: int| 0 <= i < run.len() ==> k <= run[i] < stop && job_outcome(jobs[run[i] as int], now) == Some(true)
            &&& forall|j: int| k <= j < stop && #[trigger] job_outcome(jobs[j], now) == Some(true) ==> run.contains(j as usize)
        }),
    decreases jobs.len() - k,
{
    if k < jobs.len() {
        lemma_plan_runs_exactly_the_due_jobs(jobs, now, k + 1);
        let rest = plan_from(jobs, now, k + 1);
        match job_outcome(jobs[k], now) {
            None => {},
            Some(true) => {
                let run = seq![k as usize] + rest.0;
                assert forall|j: int| k <= j < (match rest.1 { Some(f) => f as int, None => jobs.len() as int }) && #[trigger] job_outcome(jobs[j], now) == Some(true) implies run.contains(j as usize) by {
                    if j == k {
                        assert(run[0] == k as usize);
                    } else {
                        assert(rest.0.contains(j as usize));
                        let i = choose|i: int| 0 <= i < rest.0.len() && rest.0[i] == j as usize;
                        assert(run[i + 1] == j as usize);
                    }
                }
            },
            Some(false) => {},
        }
    }
}

/// In the steps of a run, a job's purge comes right after its snapshot, and
/// both are for a job that runs: a job that does not run is neither
/// snapshotted nor purged.
pub proof fn lemma_purge_follows_snapshot(jobs: Seq<Job>, now: Moment)
    requires
        jobs.len() <= usize::MAX,
    ensures
        ({
            let acts = actions_of(plan_from(jobs, now, 0).0);
            forall|i: int|
                0 <= i < acts.len() ==> match #[trigger] acts[i] {
                    JobAction::Purge(j) => i >= 1 && acts[i - 1] == JobAction::TakeSnapshot(j)
                        && j < jobs.len() && job_outcome(jobs[j as int], now) == Some(true),
                    JobAction::TakeSnapshot(j) => i + 1 < acts.len() && acts[i + 1]
                        == JobAction::Purge(j) && j < jobs.len() && job_outcome(jobs[j as int], now)
                        == Some(true),
                }
        }),
{
    lemma_plan_runs_exactly_the_due_jobs(jobs, now, 0);
    let run = plan_from(jobs, now, 0).0;
    let acts = actions_of(run);
    assert forall|i: int| 0 <= i < acts.len() implies match #[trigger] acts[i] {
        JobAction::Purge(j) => i >= 1 && acts[i - 1] == JobAction::TakeSnapshot(j) && j < jobs.len()
            && job_outcome(jobs[j as int], now) == Some(true),
        JobAction::TakeSnapshot(j) => i + 1 < acts.len() && acts[i + 1] == JobAction::Purge(j) && j
            < jobs.len() && job_outcome(jobs[j as int], now) == Some(true),
    } by {
        assert(0 <= i / 2 < run.len()) by (nonlinear_arith)
            requires
                0 <= i < 2 * run.len(),
        ;
        if i % 2 == 0 {
            assert((i + 1) / 2 == i / 2 && (i + 1) % 2 == 1) by (nonlinear_arith)
                requires
                    i % 2 == 0,
                    0 <= i,
            ;
            assert(i + 1 < 2 * run.len()) by (nonlinear_arith)
                requires
                    i % 2 == 0,
                    0 <= i < 2 * run.len(),
            ;
        } else {
            assert((i - 1) / 2 == i / 2 && (i - 1) % 2 == 0 && i >= 1) by (nonlinear_arith)
                requires
                    i % 2 == 1,
                    0 <= i,
            ;
        }
    }
}

proof fn lemma_whens_push_true(ws: Seq<When>, w: When, now: Moment)
    requires
        when_outcome(w, now) == Some(true),
    ensures
        whens_outcome(ws.push(w), now) == whens_outcome(ws, now),
    decreases ws.len(),
{
    let pushed = ws.push(w);
    if ws.len() == 0 {
        assert(pushed.drop_first() =~= Seq::<When>::empty());
        assert(pushed[0] == w);
        assert(whens_outcome(pushed.drop_first(), now) == Some(true));
    } else {
        assert(pushed.drop_first() =~= ws.drop_first().push(w));
        assert(pushed[0] == ws[0]);
        lemma_whens_push_true(ws.drop_first(), w, now);
        assert(whens_outcome(pushed.drop_first(), now) == whens_outcome(ws.drop_first(), now));
    }
}

proof fn lemma_plan_follows_outcomes(jobs1: Seq<Job>, jobs2: Seq<Job>, now: Moment, k: int)
    requires
        jobs1.len() == jobs2.len(),
        forall|i: int| 0 <= i < jobs1.len() ==> job_outcome(#[trigger] jobs1[i], now) == job_outcome(jobs2[i], now),
    ensures
        plan_from(jobs1, now, k) == plan_from(jobs2, now, k),
    decreases jobs1.len() - k,
{
    if 0 <= k < jobs1.len() {
        lemma_plan_follows_outcomes(jobs1, jobs2, now, k + 1);
        assert(job_outcome(jobs1[k], now) == job_outcome(jobs2[k], now));
    }
}

/// Adding to a job a `when` whose value is `*`, on any known field, changes
/// nothing in any run: the job runs, is skipped or faults exactly as before,
/// and so does every other job.
pub proof fn lemma_asterisk_when_changes_nothing(
    jobs: Seq<Job>,
    j: int,
    with_asterisk: Job,
    w: When,
    now: Moment,
)
    requires
        0 <= j < jobs.len(),
        field_value(w.field@, now) is Some,
        w.value@ == "*"@,
        with_asterisk.whens@ == jobs[j].whens@.push(w),
        with_asterisk.prefix@ == jobs[j].prefix@,
        with_asterisk.postfix@ == jobs[j].postfix@,
    ensures
        job_outcome(with_asterisk, now) == job_outcome(jobs[j], now),
        plan_from(jobs.update(j, with_asterisk), now, 0) == plan_from(jobs, now, 0),
{
    reveal_strlit("*");
    assert(w.value@ =~= seq!['*']);
    reveal_with_fuel(split_on, 2);
    assert(seq!['*'].drop_last() =~= Seq::<char>::empty());
    assert(split_on(seq!['*'], ',') =~= seq![seq!['*']]);
    assert(when_part(seq!['*']) == WhenPart::Any);
    reveal_with_fuel(first_hit, 2);
    assert(when_outcome(w, now) == Some(true));
    lemma_whens_push_true(jobs[j].whens@, w, now);
    let jobs2 = jobs.update(j, with_asterisk);
    assert forall|i: int| 0 <= i < jobs.len() implies job_outcome(#[trigger] jobs[i], now)
        == job_outcome(jobs2[i], now) by {
        if i == j {
            assert(jobs2[i] == with_asterisk);
        }
    }
    lemma_plan_follows_outcomes(jobs, jobs2, now, 0);
}

/// A job index as it reads once the job at index `j` is removed.
pub open spec fn index_without(x: usize, j: int) -> usize {
    if x > j {
        (x - 1) as usize
    } else {
        x
    }
}

/// A plan as it reads once the job at index `j` is removed.
pub open spec fn plan_without(p: (Seq<usize>, Option<usize>), j: int) -> (Seq<usize>, Option<usize>) {
    (
        p.0.map_values(|x: usize| index_without(x, j)),
        match p.1 {
            Some(f) => Some(index_without(f, j)),
            None => None,
        },
    )
}

proof fn lemma_plan_without_step(run: Seq<usize>, k: usize, j: int)
    ensures
        (seq![k] + run).map_values(|x: usize| index_without(x, j)) =~= seq![index_without(k, j)]
            + run.map_values(|x: usize| index_without(x, j)),
{
}

proof fn lemma_plan_after_removed(jobs: Seq<Job>, j: int, now: Moment, k: int)
    requires
        0 <= j < k <= jobs.len() <= usize::MAX,
    ensures
        plan_from(jobs.remove(j), now, k - 1) == plan_without(plan_from(jobs, now, k), j),
    decreases jobs.len() - k,
{
    let jobs2 = jobs.remove(j);
    if k < jobs.len() {
        lemma_plan_after_removed(jobs, j, now, k + 1);
        assert(jobs2[k - 1] == jobs[k]);
        match job_outcome(jobs[k], now) {
            Some(true) => lemma_plan_without_step(plan_from(jobs, now, k + 1).0, k as usize, j),
            _ => {},
        }
    } else {
        assert(plan_from(jobs, now, k).0.map_values(|x: usize| index_without(x, j)) =~= Seq::<usize>::empty());
    }
}

proof fn lemma_plan_before_removed(jobs: Seq<Job>, j: int, now: Moment, k: int)
    requires
        0 <= k <= j < jobs.len() <= usize::MAX,
        job_outcome(jobs[j], now) == Some(false),
    ensures
        plan_from(jobs.remove(j), now, k) == plan_without(plan_from(jobs, now, k), j),
    decreases j - k,
{
    let jobs2 = jobs.remove(j);
    if k == j {
        lemma_plan_after_removed(jobs, j, now, j + 1);
    } else {
        lemma_plan_before_removed(jobs, j, now, k + 1);
        assert(jobs2[k] == jobs[k]);
        match job_outcome(jobs[k], now) {
            Some(true) => lemma_plan_without_step(plan_from(jobs, now, k + 1).0, k as usize, j),
            _ => {},
        }
    }
}

/// Removing a job whose prefix or postfix is not valid changes no other job's
/// part in any run: the plan is the same, with the indices after the removed
/// job moved down by one.
pub proof fn lemma_removing_invalid_job_changes_nothing(jobs: Seq<Job>, j: int, now: Moment)
    requires
        0 <= j < jobs.len() <= usize::MAX,
        !adfix_valid(jobs[j].prefix@) || !adfix_valid(jobs[j].postfix@),
    ensures
        plan_from(jobs.remove(j), now, 0) == plan_without(plan_from(jobs, now, 0), j),
{
    lemma_plan_before_removed(jobs, j, now, 0);
}

/// A `when` value matches a time value when any one of its comma-separated
/// parts matches it, provided no part faults.
pub proof fn lemma_check_values_any_part(value: Seq<char>, t: u32)
    requires
        forall|i: int|
            0 <= i < split_on(value, ',').len() ==> (#[trigger] part_matches(
                when_part(split_on(value, ',')[i]),
                t,
            )) is Some,
    ensures
        check_values_outcome(value, t) == Some(
            exists|i: int|
                0 <= i < split_on(value, ',').len() && #[trigger] part_matches(
                    when_part(split_on(value, ',')[i]),
                    t,
                ) == Some(true),
        ),
{
    let parts = split_on(value, ',');
    let f = |w: WhenPart| part_matches(w, t);
    assert forall|i: int| 0 <= i < parts.len() implies (#[trigger] f(when_part(parts[i]))) is Some by {
        assert(part_matches(when_part(parts[i]), t) is Some);
    }
    lemma_first_hit_any(parts, f);
    if exists|i: int| 0 <= i < parts.len() && #[trigger] f(when_part(parts[i])) == Some(true) {
        let i = choose|i: int| 0 <= i < parts.len() && #[trigger] f(when_part(parts[i])) == Some(true);
        assert(part_matches(when_part(parts[i]), t) == Some(true));
    }
    if exists|i: int| 0 <= i < parts.len() && #[trigger] part_matches(when_part(parts[i]), t) == Some(true) {
        let i = choose|i: int| 0 <= i < parts.len() && #[trigger] part_matches(when_part(parts[i]), t) == Some(true);
        assert(f(when_part(parts[i])) == Some(true));
    }
}

proof fn lemma_first_hit_any(parts: Seq<Seq<char>>, f: spec_fn(WhenPart) -> Option<bool>)
    requires
        forall|i: int| 0 <= i < parts.len() ==> (#[trigger] f(when_part(parts[i]))) is Some,
    ensures
        first_hit(parts, f) == Some(
            exists|i: int| 0 <= i < parts.len() && #[trigger] f(when_part(parts[i])) == Some(true),
        ),
    decreases parts.len(),
{
    if parts.len() > 0 {
        let rest = parts.drop_first();
        assert forall|i: int| 0 <= i < rest.len() implies (#[trigger] f(
            when_part(rest[i]),
        )) is Some by {
            assert(rest[i] == parts[i + 1]);
        }
        lemma_first_hit_any(rest, f);
        assert(f(when_part(parts[0])) is Some);
        if f(when_part(parts[0])) == Some(false) {
            if exists|i: int| 0 <= i < parts.len() && #[trigger] f(when_part(parts[i])) == Some(true) {
                let i = choose|i: int| 0 <= i < parts.len() && #[trigger] f(when_part(parts[i])) == Some(true);
                assert(rest[i - 1] == parts[i]);
            }
            if exists|i: int| 0 <= i < rest.len() && #[trigger] f(when_part(rest[i])) == Some(true) {
                let i = choose|i: int| 0 <= i < rest.len() && #[trigger] f(when_part(rest[i])) == Some(true);
                assert(rest[i] == parts[i + 1]);
            }
        }
    }
}

/// A job whose evaluation does not fault runs exactly when its prefix and
/// postfix are valid and each of its `whens` holds; in particular a job with
/// no `whens` runs whenever its labels are valid.
pub proof fn lemma_job_runs_iff_all_whens(job: Job, now: Moment)
    requires
        job_outcome(job, now) is Some,
    ensures
        job_outcome(job, now)->0 <==> (adfix_valid(job.prefix@) && adfix_valid(job.postfix@)
            && forall|i: int|
            0 <= i < job.whens@.len() ==> #[trigger] when_outcome(job.whens@[i], now) == Some(
                true,
            )),
{
    if adfix_valid(job.prefix@) && adfix_valid(job.postfix@) {
        lemma_whens_all(job.whens@, now);
    }
}

/// A job whose prefix or postfix is not valid never runs: no snapshot is ever
/// made for it.
pub proof fn lemma_invalid_label_never_runs(job: Job, now: Moment)
    requires
        !adfix_valid(job.prefix@) || !adfix_valid(job.postfix@),
    ensures
        job_outcome(job, now) == Some(false),
{
}

/// A job with a `when` on an unknown field never runs, whatever the moment.
pub proof fn lemma_unknown_field_never_runs(job: Job, now: Moment, i: int)
    requires
        0 <= i < job.whens@.len(),
        field_value(job.whens@[i].field@, now) is None,
        job_outcome(job, now) is Some,
    ensures
        job_outcome(job, now) == Some(false),
{
    lemma_job_runs_iff_all_whens(job, now);
    assert(when_outcome(job.whens@[i], now) == Some(false));
}

proof fn lemma_whens_all(ws: Seq<When>, now: Moment)
    requires
        whens_outcome(ws, now) is Some,
    ensures
        whens_outcome(ws, now)->0 <==> forall|i: int|
            0 <= i < ws.len() ==> #[trigger] when_outcome(ws[i], now) == Some(true),
    decreases ws.len(),
{
    if ws.len() > 0 {
        let rest = ws.drop_first();
        lemma_whens_all(rest, now);
        if whens_outcome(ws, now)->0 {
            assert forall|i: int| 0 <= i < ws.len() implies #[trigger] when_outcome(ws[i], now)
                == Some(true) by {
                if i > 0 {
                    assert(rest[i - 1] == ws[i]);
                }
            }
        } else {
            if when_outcome(ws[0], now) == Some(true) {
                let i = choose|i: int| 0 <= i < rest.len() && #[trigger] when_outcome(rest[i], now) != Some(true);
                assert(rest[i] == ws[i + 1]);
            }
        }
    }
}

} // verus!
