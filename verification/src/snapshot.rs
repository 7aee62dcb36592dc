use vstd::prelude::*;
use chrono::TimeZone;
use std::fmt::Write;
use crate::schedule::Moment;
use crate::text::string_views;

verus! {

/// What the local time zone says of a calendar time.
pub enum LocalOffset {
    /// The time does not exist in the local time zone, or exists twice.
    NoSuchLocalTime,
    /// The time exists once, at this many seconds ahead of UTC.
    Offset(i32),
}

/// Calls `TimeZone::with_ymd_and_hms` on `chrono::Local` (zero seconds) and
/// reads the UTC offset (`local_minus_utc`) of the single answer. The answer
/// depends on the machine's time zone, so the contract claims only what chrono
/// documents for every zone: a calendar value out of range (month, day, hour,
/// minute) gives no time. Which offset comes back, and which valid times fall
/// in a gap or an overlap, is left unsaid.
#[verifier::external_body]
pub(crate) fn local_offset(year: i32, month: u32, day: u32, hour: u32, min: u32) -> (r: LocalOffset)
    ensures
        !(1 <= month <= 12 && 1 <= day <= 31 && hour <= 23 && min <= 59) ==> r is NoSuchLocalTime,
{
    match chrono::Local.with_ymd_and_hms(year, month, day, hour, min, 0) {
        chrono::MappedLocalTime::Single(t) => LocalOffset::Offset(t.offset().local_minus_utc()),
        _ => LocalOffset::NoSuchLocalTime,
    }
}

/// Whether `r` is an answer that the local time zone can give, through
/// `local_offset`, for the calendar time `year`-`month`-`day` `hour`:`min`.
/// Which answer it gives depends on the machine's time zone.
pub closed spec fn local_zone_answer(year: i32, month: u32, day: u32, hour: u32, min: u32, r: LocalOffset) -> bool {
    call_ensures(local_offset, (year, month, day, hour, min), r)
}

pub(crate) proof fn lemma_local_zone_answer(year: i32, month: u32, day: u32, hour: u32, min: u32, r: LocalOffset)
    requires
        call_ensures(local_offset, (year, month, day, hour, min), r),
    ensures
        local_zone_answer(year, month, day, hour, min, r),
{
}

/// What `DateTime::format(fmt)` renders for the calendar time `year`-`month`-
/// `day` `hour`:`min`:00 at a fixed offset of `offset` seconds east of UTC;
/// `None` when that time or offset does not exist, or the format holds an item
/// that cannot be rendered.
pub uninterp spec fn strftime_text(
    year: i32,
    month: u32,
    day: u32,
    hour: u32,
    min: u32,
    offset: i32,
    fmt: Seq<char>,
) -> Option<Seq<char>>;

/// Calls `DateTime::format(fmt)` on the time built by `FixedOffset::east_opt`
/// and `TimeZone::with_ymd_and_hms` (zero seconds), rendered into a `String`.
/// The contract claims that the result is `strftime_text` of the arguments, a
/// function of them alone.
#[verifier::external_body]
fn format_at_offset(year: i32, month: u32, day: u32, hour: u32, min: u32, offset: i32, fmt: &str) -> (r:
    Option<String>)
    ensures
        match r {
            Some(text) => strftime_text(year, month, day, hour, min, offset, fmt@) == Some(text@),
            None => strftime_text(year, month, day, hour, min, offset, fmt@) is None,
        },
{
    let zone = match chrono::FixedOffset::east_opt(offset) {
        Some(zone) => zone,
        None => return None,
    };
    match zone.with_ymd_and_hms(year, month, day, hour, min, 0) {
        chrono::MappedLocalTime::Single(t) => {
            let mut text = String::new();
            match write!(text, "{}", t.format(fmt)) {
                Ok(()) => Some(text),
                Err(_) => None,
            }
        },
        _ => None,
    }
}

/// The calendar time a job's snapshot is labelled with: the moment itself, or,
/// for a pre-dated job, midnight of the date one hour earlier.
pub open spec fn label_time(pre_date: bool, now: Moment) -> (i32, u32, u32, u32, u32) {
    if pre_date {
        (now.pre_year, now.pre_month, now.pre_day, 0, 0)
    } else {
        (now.year, now.month, now.day, now.hour, now.minute)
    }
}

/// The calendar time a job's snapshot is labelled with (see `label_time`).
pub fn snapshot_time(pre_date: bool, now: &Moment) -> (r: (i32, u32, u32, u32, u32))
    ensures
        r == label_time(pre_date, *now),
{
    if pre_date {
        (now.pre_year, now.pre_month, now.pre_day, 0, 0)
    } else {
        (now.year, now.month, now.day, now.hour, now.minute)
    }
}

/// The arguments of the `zfs` command that takes a job's snapshot, labelled
/// `prefix` + `date` + `postfix`; `None` when that label is empty.
pub open spec fn snapshot_args(
    dataset: Seq<char>,
    recursive: bool,
    prefix: Seq<char>,
    date: Seq<char>,
    postfix: Seq<char>,
) -> Option<Seq<Seq<char>>> {
    let tag = prefix + date + postfix;
    if tag.len() == 0 {
        None
    } else {
        let label = dataset + seq!['@'] + tag;
        if recursive {
            Some(seq!["snapshot"@, "-r"@, label])
        } else {
            Some(seq!["snapshot"@, label])
        }
    }
}

/// The `zfs` arguments that take the snapshot `dataset@prefix<date>postfix`
/// (with `-r` for a recursive job); `None` when the label would be empty.
pub fn snapshot_command(dataset: &str, recursive: bool, prefix: &str, date: &str, postfix: &str) -> (r:
    Option<Vec<String>>)
    ensures
        match r {
            Some(v) => snapshot_args(dataset@, recursive, prefix@, date@, postfix@) == Some(
                string_views(v@),
            ),
            None => snapshot_args(dataset@, recursive, prefix@, date@, postfix@) is None,
        },
{
    let tag = prefix.to_owned().concat(date).concat(postfix);
    if tag.as_str().unicode_len() == 0 {
        return None;
    }
    let label = dataset.to_owned().concat("@").concat(tag.as_str());
    proof {
        reveal_strlit("@");
        assert("@"@ =~= seq!['@']);
    }
    let mut v: Vec<String> = Vec::new();
    v.push("snapshot".to_owned());
    if recursive {
        v.push("-r".to_owned());
    }
    v.push(label);
    if recursive {
        assert(string_views(v@) =~= seq!["snapshot"@, "-r"@, dataset@ + seq!['@'] + (prefix@ + date@ + postfix@)]);
    } else {
        assert(string_views(v@) =~= seq!["snapshot"@, dataset@ + seq!['@'] + (prefix@ + date@ + postfix@)]);
    }
    Some(v)
}

/// What a job does to take its snapshot.
pub enum SnapshotPlan {
    /// The label time asked for does not exist (or exists twice) in the local
    /// time zone.
    NoSuchLocalTime { year: i32, month: u32, day: u32, hour: u32, minute: u32 },
    /// This date format cannot be rendered at the label time, which the local
    /// time zone puts at `utc_offset` seconds ahead of UTC.
    FormatFailed { date_format: String, utc_offset: i32 },
    /// The label would be empty: no snapshot is taken.
    EmptyLabel { utc_offset: i32 },
    /// Run `zfs` with `args`; `date` is the rendered date in the label.
    Take { date: String, utc_offset: i32, args: Vec<String> },
}

/// Whether `r` is what a job's snapshot comes to when its label time `label`
/// is rendered with `date_format` at `utc_offset` seconds ahead of UTC (see
/// `strftime_text`): the format fails, the label is empty, or `zfs` is run
/// with the arguments of `snapshot_args`; the offset is carried along.
pub open spec fn plan_at_offset_is(
    r: SnapshotPlan,
    dataset: Seq<char>,
    recursive: bool,
    prefix: Seq<char>,
    postfix: Seq<char>,
    date_format: Seq<char>,
    label: (i32, u32, u32, u32, u32),
    utc_offset: i32,
) -> bool {
    let text = strftime_text(label.0, label.1, label.2, label.3, label.4, utc_offset, date_format);
    match r {
        SnapshotPlan::NoSuchLocalTime { .. } => false,
        SnapshotPlan::FormatFailed { date_format: f, utc_offset: off } => off == utc_offset
            && f@ == date_format && text is None,
        SnapshotPlan::EmptyLabel { utc_offset: off } => off == utc_offset && (text matches Some(d)
            && snapshot_args(dataset, recursive, prefix, d, postfix) is None),
        SnapshotPlan::Take { date, utc_offset: off, args } => off == utc_offset && text == Some(
            date@,
        ) && snapshot_args(dataset, recursive, prefix, date@, postfix) == Some(string_views(args@)),
    }
}

/// Plans a job's snapshot once the local time zone has put its label time
/// `label` at `utc_offset` seconds ahead of UTC: the label time is rendered
/// with `date_format` at that offset, and the label is `prefix` + that date +
/// `postfix`.
pub fn plan_at_offset(
    dataset: &str,
    recursive: bool,
    prefix: &str,
    postfix: &str,
    date_format: &str,
    label: (i32, u32, u32, u32, u32),
    utc_offset: i32,
) -> (r: SnapshotPlan)
    ensures
        plan_at_offset_is(r, dataset@, recursive, prefix@, postfix@, date_format@, label, utc_offset),
{
    let (year, month, day, hour, minute) = label;
    match format_at_offset(year, month, day, hour, minute, utc_offset, date_format) {
        None => SnapshotPlan::FormatFailed { date_format: date_format.to_owned(), utc_offset },
        Some(date) => {
            match snapshot_command(dataset, recursive, prefix, date.as_str(), postfix) {
                Some(args) => SnapshotPlan::Take { date, utc_offset, args },
                None => SnapshotPlan::EmptyLabel { utc_offset },
            }
        },
    }
}

/// Plans the snapshot of a job that runs at `now`: the label time (see
/// `label_time`) is looked up in the local time zone; where the zone gives it
/// one offset, the plan is that of `plan_at_offset` at that offset. Whether
/// the time exists and its offset depend on the time zone.
pub fn take_snapshot(
    dataset: &str,
    recursive: bool,
    prefix: &str,
    postfix: &str,
    date_format: &str,
    pre_date: bool,
    now: &Moment,
) -> (r: SnapshotPlan)
    ensures
        ({
            let (y, mo, d, h, mi) = label_time(pre_date, *now);
            &&& !(1 <= mo <= 12 && 1 <= d <= 31 && h <= 23 && mi <= 59) ==> r is NoSuchLocalTime
            &&& local_zone_answer(y, mo, d, h, mi, match r {
                SnapshotPlan::NoSuchLocalTime { .. } => LocalOffset::NoSuchLocalTime,
                SnapshotPlan::FormatFailed { utc_offset, .. } => LocalOffset::Offset(utc_offset),
                SnapshotPlan::EmptyLabel { utc_offset } => LocalOffset::Offset(utc_offset),
                SnapshotPlan::Take { utc_offset, .. } => LocalOffset::Offset(utc_offset),
            })
            &&& match r {
                SnapshotPlan::NoSuchLocalTime { year, month, day, hour, minute } => (
                    year,
                    month,
                    day,
                    hour,
                    minute,
                ) == (y, mo, d, h, mi),
                SnapshotPlan::FormatFailed { utc_offset, .. } => plan_at_offset_is(
                    r,
                    dataset@,
                    recursive,
                    prefix@,
                    postfix@,
                    date_format@,
                    (y, mo, d, h, mi),
                    utc_offset,
                ),
                SnapshotPlan::EmptyLabel { utc_offset } => plan_at_offset_is(
                    r,
                    dataset@,
                    recursive,
                    prefix@,
                    postfix@,
                    date_format@,
                    (y, mo, d, h, mi),
                    utc_offset,
                ),
                SnapshotPlan::Take { utc_offset, .. } => plan_at_offset_is(
                    r,
                    dataset@,
                    recursive,
                    prefix@,
                    postfix@,
                    date_format@,
                    (y, mo, d, h, mi),
                    utc_offset,
                ),
            }
        }),
{
    let label = snapshot_time(pre_date, now);
    let (year, month, day, hour, minute) = label;
    let zone = local_offset;
    let found = zone(year, month, day, hour, minute);
    proof {
        lemma_local_zone_answer(year, month, day, hour, minute, found);
    }
    match found {
        LocalOffset::NoSuchLocalTime => SnapshotPlan::NoSuchLocalTime { year, month, day, hour, minute },
        LocalOffset::Offset(off) => plan_at_offset(dataset, recursive, prefix, postfix, date_format, label, off),
    }
}

} // verus!
