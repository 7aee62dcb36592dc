use vstd::prelude::*;
use chrono::{Datelike, TimeZone, Timelike};
use crate::schedule::Moment;
use crate::snapshot::{lemma_local_zone_answer, local_offset, local_zone_answer, LocalOffset};

verus! {

/// The calendar reading of a time: the fields that `when` rules test.
#[derive(PartialEq, Eq, Structural, Clone, Copy, Debug)]
pub struct CivilTime {
    pub year: i32,
    pub month: u32,
    pub day: u32,
    /// Day of the year, 1 to 366.
    pub day_of_year: u32,
    /// Day of the week, 1 (Sunday) to 7.
    pub day_of_week: u32,
    pub hour: u32,
    pub minute: u32,
}

/// Whether each calendar field lies in its range: month 1 to 12, day 1 to 31,
/// day of the year 1 to 366, day of the week 1 to 7, hour 0 to 23, minute 0 to
/// 59.
pub open spec fn civil_in_range(c: CivilTime) -> bool {
    &&& 1 <= c.month <= 12
    &&& 1 <= c.day <= 31
    &&& 1 <= c.day_of_year <= 366
    &&& 1 <= c.day_of_week <= 7
    &&& c.hour <= 23
    &&& c.minute <= 59
}

/// The calendar reading, in UTC, of `secs` seconds after the Unix epoch, as
/// `DateTime::from_timestamp` gives it; `None` out of chrono's range.
pub uninterp spec fn utc_civil_time(secs: i64) -> Option<CivilTime>;

/// Calls `DateTime::from_timestamp(secs, 0)` and reads its calendar fields
/// (`year`, `month`, `day`, `ordinal`, `weekday().number_from_sunday()`,
/// `hour`, `minute`). The contract claims that the result is
/// `utc_civil_time(secs)`, a function of `secs` alone, and the ranges chrono
/// documents for these readings.
#[verifier::external_body]
fn civil_time(secs: i64) -> (r: Option<CivilTime>)
    ensures
        r == utc_civil_time(secs),
        r matches Some(c) ==> civil_in_range(c),
{
    match chrono::DateTime::from_timestamp(secs, 0) {
        Some(t) => Some(CivilTime {
            year: t.year(),
            month: t.month(),
            day: t.day(),
            day_of_year: t.ordinal(),
            day_of_week: t.weekday().number_from_sunday(),
            hour: t.hour(),
            minute: t.minute(),
        }),
        None => None,
    }
}

/// Calls `TimeZone::timestamp_opt(secs, 0)` on `chrono::Local` and reads the
/// UTC offset (`local_minus_utc`) of the single answer. The offset depends on
/// the machine's time zone, so nothing is claimed of it.
#[verifier::external_body]
fn local_offset_at(secs: i64) -> (r: Option<i32>) {
    match chrono::Local.timestamp_opt(secs, 0) {
        chrono::MappedLocalTime::Single(t) => Some(t.offset().local_minus_utc()),
        _ => None,
    }
}

/// Whether `r` is an answer that the local time zone can give, through
/// `local_offset_at`, for the offset at `secs` seconds after the Unix epoch.
/// Which answer it gives depends on the machine's time zone.
pub closed spec fn zone_offset_answer(secs: i64, r: Option<i32>) -> bool {
    call_ensures(local_offset_at, (secs,), r)
}

/// The calendar fields that `s` holds when read with the format
/// `"%Y-%m-%d-%H:%M"`, as `NaiveDateTime::parse_from_str` reads it; `None` when
/// it does not parse.
pub uninterp spec fn fake_date_fields(s: Seq<char>) -> Option<(i32, u32, u32, u32, u32)>;

/// Calls `NaiveDateTime::parse_from_str(s, "%Y-%m-%d-%H:%M")` and reads the
/// year, month, day, hour and minute of the result. The contract claims that
/// the result is `fake_date_fields(s)`, a function of `s` alone.
#[verifier::external_body]
fn parse_fake_date(s: &str) -> (r: Option<(i32, u32, u32, u32, u32)>)
    ensures
        r == fake_date_fields(s@),
{
    match chrono::NaiveDateTime::parse_from_str(s, "%Y-%m-%d-%H:%M") {
        Ok(t) => Some((t.year(), t.month(), t.day(), t.hour(), t.minute())),
        Err(_) => None,
    }
}

/// The seconds since the Unix epoch of the calendar time `year`-`month`-`day`
/// `hour`:`min`:00 read as UTC; `None` when that time does not exist.
pub uninterp spec fn civil_seconds(year: i32, month: u32, day: u32, hour: u32, min: u32) -> Option<i64>;

/// Calls `NaiveDate::from_ymd_opt`, `NaiveDate::and_hms_opt` (zero seconds),
/// then `NaiveDateTime::and_utc().timestamp()`. The contract claims that the
/// result is `civil_seconds` of the arguments, a function of them alone.
#[verifier::external_body]
fn utc_seconds(year: i32, month: u32, day: u32, hour: u32, min: u32) -> (r: Option<i64>)
    ensures
        r == civil_seconds(year, month, day, hour, min),
{
    match chrono::NaiveDate::from_ymd_opt(year, month, day) {
        Some(d) => match d.and_hms_opt(hour, min, 0) {
            Some(t) => Some(t.and_utc().timestamp()),
            None => None,
        },
        None => None,
    }
}

/// Whether `m` is the moment `timestamp` seconds after the Unix epoch, read in
/// a zone `utc_offset` seconds ahead of UTC then and `pre_utc_offset` seconds
/// ahead one hour earlier: its calendar fields are the UTC reading of the
/// shifted instant, and its pre-date is the date of the UTC reading of the
/// instant one hour earlier, shifted by `pre_utc_offset`.
pub open spec fn moment_is(m: Moment, timestamp: i64, utc_offset: i32, pre_utc_offset: i32) -> bool {
    &&& m.timestamp == timestamp
    &&& m.utc_offset == utc_offset
    &&& m.pre_utc_offset == pre_utc_offset
    &&& utc_civil_time((timestamp + utc_offset) as i64) == Some(
        CivilTime {
            year: m.year,
            month: m.month,
            day: m.day,
            day_of_year: m.day_of_year,
            day_of_week: m.day_of_week,
            hour: m.hour,
            minute: m.minute,
        },
    )
    &&& utc_civil_time((timestamp - 3600 + pre_utc_offset) as i64) matches Some(p) && p.year
        == m.pre_year && p.month == m.pre_month && p.day == m.pre_day
}

/// Whether the moment `timestamp` can be read at these offsets: both shifted
/// instants (and the instant one hour earlier) fit in an `i64`, and chrono
/// reads a calendar at each.
pub open spec fn moment_readable(timestamp: i64, utc_offset: i32, pre_utc_offset: i32) -> bool {
    &&& i64::MIN <= timestamp + utc_offset <= i64::MAX
    &&& i64::MIN <= timestamp - 3600
    &&& i64::MIN <= timestamp - 3600 + pre_utc_offset <= i64::MAX
    &&& utc_civil_time((timestamp + utc_offset) as i64) is Some
    &&& utc_civil_time((timestamp - 3600 + pre_utc_offset) as i64) is Some
}

/// The calendar values of the moment `timestamp` seconds after the Unix epoch,
/// once the local time zone has said it is `utc_offset` seconds ahead of UTC
/// then and `pre_utc_offset` seconds ahead one hour earlier (see `moment_is`);
/// `None` exactly where a reading is out of range (see `moment_readable`).
pub fn moment_from(timestamp: i64, utc_offset: i32, pre_utc_offset: i32) -> (r: Option<Moment>)
    ensures
        r is Some <==> moment_readable(timestamp, utc_offset, pre_utc_offset),
        r matches Some(m) ==> moment_is(m, timestamp, utc_offset, pre_utc_offset),
        r matches Some(m) ==> 1 <= m.month <= 12 && 1 <= m.day <= 31 && 1 <= m.day_of_year <= 366
            && 1 <= m.day_of_week <= 7 && m.hour <= 23 && m.minute <= 59 && 1 <= m.pre_month <= 12
            && 1 <= m.pre_day <= 31,
{
    let local = match timestamp.checked_add(utc_offset as i64) {
        Some(l) => l,
        None => return None,
    };
    let c = match civil_time(local) {
        Some(c) => c,
        None => return None,
    };
    let earlier = match timestamp.checked_sub(3600) {
        Some(e) => e,
        None => return None,
    };
    let pre_local = match earlier.checked_add(pre_utc_offset as i64) {
        Some(l) => l,
        None => return None,
    };
    let p = match civil_time(pre_local) {
        Some(p) => p,
        None => return None,
    };
    Some(
        Moment {
            year: c.year,
            month: c.month,
            day: c.day,
            day_of_year: c.day_of_year,
            day_of_week: c.day_of_week,
            hour: c.hour,
            minute: c.minute,
            timestamp,
            utc_offset,
            pre_utc_offset,
            pre_year: p.year,
            pre_month: p.month,
            pre_day: p.day,
        },
    )
}

/// The calendar values of the moment `timestamp` seconds after the Unix epoch,
/// read in the local time zone: the zone's offsets at that instant and one hour
/// earlier are looked up, and the moment is that of `moment_from` at those
/// offsets. `None` when the zone gives no single offset at either instant or a
/// reading is out of range. The offsets depend on the time zone.
pub fn moment_at(timestamp: i64) -> (r: Option<Moment>)
    ensures
        r matches Some(m) ==> moment_readable(timestamp, m.utc_offset, m.pre_utc_offset)
            && moment_is(m, timestamp, m.utc_offset, m.pre_utc_offset),
        r matches Some(m) ==> zone_offset_answer(timestamp, Some(m.utc_offset)) && zone_offset_answer(
            (timestamp - 3600) as i64,
            Some(m.pre_utc_offset),
        ),
{
    let zone = local_offset_at;
    let utc_offset = match zone(timestamp) {
        Some(off) => off,
        None => return None,
    };
    let earlier = match timestamp.checked_sub(3600) {
        Some(e) => e,
        None => return None,
    };
    let pre_utc_offset = match zone(earlier) {
        Some(off) => off,
        None => return None,
    };
    moment_from(timestamp, utc_offset, pre_utc_offset)
}

/// A moment read from the clock is the local reading of that instant: its
/// offsets are answers the local time zone gives at the instant and one hour
/// earlier, and its calendar fields are those of the instant shifted by that
/// offset, not of the instant itself in UTC.
pub proof fn lemma_moment_reads_local_zone(timestamp: i64, m: Moment)
    requires
        call_ensures(moment_at, (timestamp,), Some(m)),
    ensures
        zone_offset_answer(timestamp, Some(m.utc_offset)),
        zone_offset_answer((timestamp - 3600) as i64, Some(m.pre_utc_offset)),
        moment_readable(timestamp, m.utc_offset, m.pre_utc_offset),
        moment_is(m, timestamp, m.utc_offset, m.pre_utc_offset),
{
}

/// What a `--date` argument gives.
pub enum FakeDate {
    /// It does not read as `YYYY-MM-DD-HH:MM`.
    Unparsable,
    /// It reads as a calendar time that does not exist (or exists twice) in the
    /// local time zone.
    NoSuchLocalTime,
    /// The instant it names: `timestamp` seconds after the Unix epoch, where
    /// the local time zone is `utc_offset` seconds ahead of UTC.
    At { timestamp: i64, utc_offset: i32 },
}

/// The instant that the local calendar time `year`-`month`-`day`
/// `hour`:`minute` names, once the local time zone has put it at `utc_offset`
/// seconds ahead of UTC: its UTC seconds (see `civil_seconds`) less the
/// offset. `NoSuchLocalTime` exactly where that calendar time does not exist
/// or the instant does not fit in an `i64`.
pub fn instant_from(year: i32, month: u32, day: u32, hour: u32, minute: u32, utc_offset: i32) -> (r:
    FakeDate)
    ensures
        r !is Unparsable,
        r is At <==> (civil_seconds(year, month, day, hour, minute) matches Some(s) && i64::MIN <= s
            - utc_offset <= i64::MAX),
        r matches FakeDate::At { timestamp, utc_offset: o } ==> o == utc_offset && civil_seconds(
            year,
            month,
            day,
            hour,
            minute,
        ) == Some((timestamp + o) as i64) && i64::MIN <= timestamp + o <= i64::MAX,
{
    let secs = match utc_seconds(year, month, day, hour, minute) {
        Some(secs) => secs,
        None => return FakeDate::NoSuchLocalTime,
    };
    match secs.checked_sub(utc_offset as i64) {
        Some(timestamp) => FakeDate::At { timestamp, utc_offset },
        None => FakeDate::NoSuchLocalTime,
    }
}

/// The instant that a `--date` argument names: it is read with the format
/// `"%Y-%m-%d-%H:%M"` and taken as a local time; where the local time zone
/// gives that time one offset, the result is that of `instant_from` at that
/// offset. The zone's offset depends on the time zone.
pub fn fake_timestamp(s: &str) -> (r: FakeDate)
    ensures
        r is Unparsable <==> fake_date_fields(s@) is None,
        r matches FakeDate::At { timestamp, utc_offset } ==> fake_date_fields(s@) matches Some(
            (y, mo, d, h, mi),
        ) && civil_seconds(y, mo, d, h, mi) == Some((timestamp + utc_offset) as i64)
            && i64::MIN <= timestamp + utc_offset <= i64::MAX,
        r matches FakeDate::At { utc_offset, .. } ==> fake_date_fields(s@) matches Some(
            (y, mo, d, h, mi),
        ) && local_zone_answer(y, mo, d, h, mi, LocalOffset::Offset(utc_offset)),
{
    let (year, month, day, hour, minute) = match parse_fake_date(s) {
        Some(f) => f,
        None => return FakeDate::Unparsable,
    };
    let zone = local_offset;
    let found = zone(year, month, day, hour, minute);
    proof {
        lemma_local_zone_answer(year, month, day, hour, minute, found);
    }
    match found {
        LocalOffset::Offset(off) => instant_from(year, month, day, hour, minute, off),
        LocalOffset::NoSuchLocalTime => FakeDate::NoSuchLocalTime,
    }
}

} // verus!
