use vstd::prelude::*;
use crate::text::{
    split_on, lines_of, lines, char_views, chars_of, split_chars, parse_u32, parse_u32_chars,
    parse_i64, parse_i64_chars, str_equals, string_from_chars,
};

verus! {

/// A snapshot as `zfs list -H -o name,creation -p` reports it: its full name
/// and its creation time, in seconds since the epoch, as text.
pub struct Snapshot {
    pub snapshot: String,
    pub date: String,
}

/// The name and creation fields of one line of the snapshot listing: the first
/// two tab-separated fields, or `None` when the line has no tab.
pub open spec fn snapshot_fields(line: Seq<char>) -> Option<(Seq<char>, Seq<char>)> {
    let parts = split_on(line, '\t');
    if parts.len() >= 2 {
        Some((parts[0], parts[1]))
    } else {
        None
    }
}

/// The snapshots of a listing, one per line and in the listing's order; `None`
/// when some line has no tab.
pub open spec fn snapshot_list(listing: Seq<char>) -> Option<Seq<(Seq<char>, Seq<char>)>> {
    let ls = lines_of(listing);
    if forall|i: int| 0 <= i < ls.len() ==> (#[trigger] snapshot_fields(ls[i])) is Some {
        Some(Seq::new(ls.len(), |i: int| snapshot_fields(ls[i])->0))
    } else {
        None
    }
}

/// The name and creation fields of a snapshot.
pub open spec fn snapshot_view(s: Snapshot) -> (Seq<char>, Seq<char>) {
    (s.snapshot@, s.date@)
}

/// Reads the lines of a snapshot listing; `None` exactly where a line has no
/// tab.
pub fn try_get_snapshots(listing: &str) -> (r: Option<Vec<Snapshot>>)
    ensures
        match r {
            Some(v) => snapshot_list(listing@) == Some(v@.map_values(|s: Snapshot| snapshot_view(s))),
            None => snapshot_list(listing@) is None,
        },
{
    let chars = chars_of(listing);
    let ls = lines(&chars);
    let ghost lv = char_views(ls@);
    let mut snapshots: Vec<Snapshot> = Vec::new();
    let mut i: usize = 0;
    while i < ls.len()
        invariant
            lv == char_views(ls@),
            lv == lines_of(listing@),
            i <= ls.len(),
            snapshots@.len() == i,
            forall|j: int| 0 <= j < i ==> (#[trigger] snapshot_fields(lv[j])) is Some,
            forall|j: int|
                0 <= j < i ==> snapshot_view(#[trigger] snapshots@[j]) == snapshot_fields(lv[j])->0,
        decreases ls.len() - i,
    {
        let parts = split_chars(&ls[i], '\t');
        if parts.len() < 2 {
            assert(snapshot_fields(lv[i as int]) is None);
            return None;
        }
        let snap = Snapshot { snapshot: string_from_chars(&parts[0]), date: string_from_chars(&parts[1]) };
        snapshots.push(snap);
        i = i + 1;
    }
    assert(snapshots@.map_values(|s: Snapshot| snapshot_view(s)) =~= Seq::new(
        lv.len(),
        |j: int| snapshot_fields(lv[j])->0,
    ));
    Some(snapshots)
}

/// The snapshots of a listing, one per tab-separated line `name<TAB>creation`,
/// in the listing's order. Every line must hold a tab.
pub fn get_snapshots(listing: &str) -> (r: Vec<Snapshot>)
    requires
        snapshot_list(listing@) is Some,
    ensures
        snapshot_list(listing@) == Some(r@.map_values(|s: Snapshot| snapshot_view(s))),
{
    match try_get_snapshots(listing) {
        Some(v) => v,
        None => {
            assert(false);
            Vec::new()
        },
    }
}


/// The seconds in one period of a time-based purge unit; `None` for any other
/// unit.
pub open spec fn period_seconds(unit: Seq<char>) -> Option<int> {
    if unit == "minute"@ {
        Some(60)
    } else if unit == "hour"@ {
        Some(3600)
    } else if unit == "day"@ {
        Some(86400)
    } else if unit == "week"@ {
        Some(604800)
    } else if unit == "year"@ {
        Some(31536000)
    } else {
        None
    }
}

/// The snapshots, in order, that are more than `seconds` old at `now`; `None`
/// where a creation time does not parse or an age does not fit in an `i64`.
pub open spec fn older_than(snaps: Seq<Snapshot>, seconds: int, now: i64) -> Option<Seq<Seq<char>>>
    decreases snaps.len(),
{
    if snaps.len() == 0 {
        Some(Seq::<Seq<char>>::empty())
    } else {
        match parse_i64(snaps[0].date@) {
            None => None,
            Some(t) => {
                let age = now - t;
                if age < i64::MIN || age > i64::MAX {
                    None
                } else {
                    match older_than(snaps.drop_first(), seconds, now) {
                        None => None,
                        Some(rest) => Some(
                            if age > seconds {
                                seq![snaps[0].snapshot@] + rest
                            } else {
                                rest
                            },
                        ),
                    }
                }
            },
        }
    }
}

/// The names of the snapshots that a purge rule destroys, in the order they are
/// destroyed. The snapshots are listed newest first. `count` keeps the first
/// `value` of them and destroys the rest, oldest first; a time unit destroys,
/// in list order, those more than `value` periods old; any other unit destroys
/// nothing. `None` where the purge faults: `value` does not parse as a
/// `u32`, or (for a time unit) a creation time does not parse or an age
/// overflows an `i64`.
pub open spec fn purge_outcome(snaps: Seq<Snapshot>, unit: Seq<char>, value: Seq<char>, now: i64) -> Option<
    Seq<Seq<char>>,
> {
    if unit == "count"@ {
        match parse_u32(value) {
            None => None,
            Some(c) => {
                let n = snaps.len() as u32;
                if c < n {
                    Some(Seq::new((n - c) as nat, |k: int| snaps[snaps.len() - 1 - k].snapshot@))
                } else {
                    Some(Seq::<Seq<char>>::empty())
                }
            },
        }
    } else {
        match period_seconds(unit) {
            None => Some(Seq::<Seq<char>>::empty()),
            Some(f) => match parse_u32(value) {
                None => None,
                Some(c) => older_than(snaps, c * f, now),
            },
        }
    }
}

fn period_seconds_exec(unit: &str) -> (r: Option<u32>)
    ensures
        match r {
            Some(f) => period_seconds(unit@) == Some(f as int),
            None => period_seconds(unit@) is None,
        },
{
    if str_equals(unit, "minute") {
        Some(60)
    } else if str_equals(unit, "hour") {
        Some(3600)
    } else if str_equals(unit, "day") {
        Some(86400)
    } else if str_equals(unit, "week") {
        Some(604800)
    } else if str_equals(unit, "year") {
        Some(31536000)
    } else {
        None
    }
}

fn count_purge(snapshots: &Vec<Snapshot>, count: u32) -> (r: Vec<String>)
    ensures
        ({
            let n = snapshots@.len() as u32;
            r@.map_values(|s: String| s@) == if count < n {
                Seq::new((n - count) as nat, |k: int| snapshots@[snapshots@.len() - 1 - k].snapshot@)
            } else {
                Seq::<Seq<char>>::empty()
            }
        }),
{
    let len = snapshots.len();
    #[verifier::truncate]
    let snapshot_count: u32 = len as u32;
    assert(snapshot_count <= len) by (bit_vector)
        requires
            snapshot_count == len as u32,
    ;
    let mut deleted: Vec<String> = Vec::new();
    if count < snapshot_count {
        let delete_count = snapshot_count - count;
        let mut d: u32 = 0;
        while d < delete_count
            invariant
                len == snapshots@.len(),
                delete_count <= snapshot_count <= len,
                d <= delete_count,
                deleted@.map_values(|s: String| s@) =~= Seq::new(
                    d as nat,
                    |k: int| snapshots@[len - 1 - k].snapshot@,
                ),
            decreases delete_count - d,
        {
            let idx = len - 1 - (d as usize);
            let ghost before = deleted@.map_values(|s: String| s@);
            deleted.push(snapshots[idx].snapshot.clone());
            assert(deleted@.map_values(|s: String| s@) =~= before.push(snapshots@[idx as int].snapshot@));
            d = d + 1;
        }
    }
    deleted
}

fn time_purge(snapshots: &Vec<Snapshot>, seconds: i64, now: i64) -> (r: Option<Vec<String>>)
    ensures
        match r {
            Some(v) => older_than(snapshots@, seconds as int, now) == Some(
                v@.map_values(|s: String| s@),
            ),
            None => older_than(snapshots@, seconds as int, now) is None,
        },
{
    let ghost ss = snapshots@;
    let mut deleted: Vec<String> = Vec::new();
    let mut i: usize = 0;
    assert(ss.skip(0) =~= ss);
    while i < snapshots.len()
        invariant
            ss == snapshots@,
            i <= ss.len(),
            older_than(ss, seconds as int, now) == match older_than(ss.skip(i as int), seconds as int, now) {
                None => None,
                Some(rest) => Some(deleted@.map_values(|s: String| s@) + rest),
            },
        decreases ss.len() - i,
    {
        assert(ss.skip(i as int).drop_first() =~= ss.skip(i as int + 1));
        assert(ss.skip(i as int)[0] == ss[i as int]);
        let snap = &snapshots[i];
        let date_chars = chars_of(snap.date.as_str());
        let snaptime = match parse_i64_chars(&date_chars) {
            Some(t) => t,
            None => return None,
        };
        let offset = match now.checked_sub(snaptime) {
            Some(o) => o,
            None => return None,
        };
        if offset > seconds {
            let ghost before = deleted@.map_values(|s: String| s@);
            deleted.push(snap.snapshot.clone());
            assert(deleted@.map_values(|s: String| s@) =~= before.push(snap.snapshot@));
            proof {
                let ghost later = older_than(ss.skip(i as int + 1), seconds as int, now);
                if later is Some {
                    assert(before + (seq![snap.snapshot@] + later->0) =~= before.push(
                        snap.snapshot@,
                    ) + later->0);
                }
            }
        }
        i = i + 1;
    }
    assert(ss.skip(i as int) =~= Seq::<Snapshot>::empty());
    assert(deleted@.map_values(|s: String| s@) + Seq::<Seq<char>>::empty() =~= deleted@.map_values(
        |s: String| s@,
    ));
    Some(deleted)
}

/// The names of the snapshots that the purge rule `purge_rule`/`purge_value`
/// destroys at time `systemtime`, in the order they are destroyed; `None`
/// exactly where the purge faults (see `purge_outcome`).
pub fn try_purge_snapshots(
    snapshots: &Vec<Snapshot>,
    purge_rule: &str,
    purge_value: &str,
    systemtime: i64,
) -> (r: Option<Vec<String>>)
    ensures
        match r {
            Some(v) => purge_outcome(snapshots@, purge_rule@, purge_value@, systemtime) == Some(
                v@.map_values(|s: String| s@),
            ),
            None => purge_outcome(snapshots@, purge_rule@, purge_value@, systemtime) is None,
        },
{
    let value_chars = chars_of(purge_value);
    if str_equals(purge_rule, "count") {
        match parse_u32_chars(&value_chars) {
            None => None,
            Some(count) => Some(count_purge(snapshots, count)),
        }
    } else {
        match period_seconds_exec(purge_rule) {
            None => {
                let v: Vec<String> = Vec::new();
                assert(v@.map_values(|s: String| s@) =~= Seq::<Seq<char>>::empty());
                Some(v)
            },
            Some(f) => match parse_u32_chars(&value_chars) {
                None => None,
                Some(count) => {
                    assert(f <= 31536000);
                    assert((count as int) * (f as int) <= 4294967295 * 31536000) by (nonlinear_arith)
                        requires
                            count <= 4294967295,
                            f <= 31536000,
                    ;
                    let seconds: i64 = count as i64 * f as i64;
                    time_purge(snapshots, seconds, systemtime)
                },
            },
        }
    }
}

/// The names of the snapshots of a job that its purge rule destroys at time
/// `systemtime` (seconds since the epoch), in the order they are destroyed.
/// `snapshots` lists the job's snapshots newest first. The rule and snapshots
/// must be ones on which the purge does not fault (see `purge_outcome`).
pub fn purge_snapshots(
    snapshots: &Vec<Snapshot>,
    purge_rule: &str,
    purge_value: &str,
    systemtime: i64,
) -> (r: Vec<String>)
    requires
        purge_outcome(snapshots@, purge_rule@, purge_value@, systemtime) is Some,
    ensures
        purge_outcome(snapshots@, purge_rule@, purge_value@, systemtime) == Some(
            r@.map_values(|s: String| s@),
        ),
{
    match try_purge_snapshots(snapshots, purge_rule, purge_value, systemtime) {
        Some(v) => v,
        None => {
            assert(false);
            Vec::new()
        },
    }
}


/// The age at `now` of a snapshot whose creation time parses.
pub open spec fn snapshot_age(s: Snapshot, now: i64) -> int {
    now - parse_i64(s.date@)->0
}

/// Under the `count` rule with value `c`, exactly the newest `c` snapshots stay
/// (all of them when there are fewer) and the others are destroyed, oldest
/// first.
pub proof fn lemma_count_keeps_newest(snaps: Seq<Snapshot>, value: Seq<char>, now: i64, c: u32)
    requires
        parse_u32(value) == Some(c),
        snaps.len() <= u32::MAX,
    ensures
        purge_outcome(snaps, "count"@, value, now) is Some,
        ({
            let d = purge_outcome(snaps, "count"@, value, now)->0;
            let kept = if c < snaps.len() {
                c as int
            } else {
                snaps.len() as int
            };
            &&& d.len() == snaps.len() - kept
            &&& forall|k: int| 0 <= k < d.len() ==> #[trigger] d[k] == snaps[snaps.len() - 1 - k].snapshot@
        }),
{
    assert((snaps.len() as u32) as int == snaps.len());
}

/// Under a time unit, the destroyed snapshots are, in list order, exactly those
/// older than `value` periods, provided every creation time parses and every
/// age fits in an `i64`.
pub proof fn lemma_time_rule_destroys_older(
    snaps: Seq<Snapshot>,
    unit: Seq<char>,
    value: Seq<char>,
    now: i64,
    c: u32,
    f: int,
)
    requires
        unit != "count"@,
        period_seconds(unit) == Some(f),
        parse_u32(value) == Some(c),
        forall|i: int| 0 <= i < snaps.len() ==> (#[trigger] parse_i64(snaps[i].date@)) is Some,
        forall|i: int|
            0 <= i < snaps.len() ==> i64::MIN <= #[trigger] snapshot_age(snaps[i], now) <= i64::MAX,
    ensures
        purge_outcome(snaps, unit, value, now) == Some(
            snaps.filter(|s: Snapshot| snapshot_age(s, now) > c * f).map_values(
                |s: Snapshot| s.snapshot@,
            ),
        ),
{
    lemma_older_than_filter(snaps, c * f, now);
}

/// The time units are counted in seconds as a minute (60), an hour (3600), a
/// day (86400), a week (604800) and a year of 365 days (31536000): a rule of
/// `value` such units destroys, in list order, exactly the snapshots more than
/// `value` times that many seconds old, provided every creation time parses
/// and every age fits in an `i64`.
pub proof fn lemma_time_units_in_seconds(snaps: Seq<Snapshot>, value: Seq<char>, now: i64, c: u32)
    requires
        parse_u32(value) == Some(c),
        forall|i: int| 0 <= i < snaps.len() ==> (#[trigger] parse_i64(snaps[i].date@)) is Some,
        forall|i: int|
            0 <= i < snaps.len() ==> i64::MIN <= #[trigger] snapshot_age(snaps[i], now) <= i64::MAX,
    ensures
        purge_outcome(snaps, "minute"@, value, now) == Some(
            snaps.filter(|s: Snapshot| snapshot_age(s, now) > c * 60).map_values(|s: Snapshot| s.snapshot@),
        ),
        purge_outcome(snaps, "hour"@, value, now) == Some(
            snaps.filter(|s: Snapshot| snapshot_age(s, now) > c * 3600).map_values(|s: Snapshot| s.snapshot@),
        ),
        purge_outcome(snaps, "day"@, value, now) == Some(
            snaps.filter(|s: Snapshot| snapshot_age(s, now) > c * 86400).map_values(|s: Snapshot| s.snapshot@),
        ),
        purge_outcome(snaps, "week"@, value, now) == Some(
            snaps.filter(|s: Snapshot| snapshot_age(s, now) > c * 604800).map_values(
                |s: Snapshot| s.snapshot@,
            ),
        ),
        purge_outcome(snaps, "year"@, value, now) == Some(
            snaps.filter(|s: Snapshot| snapshot_age(s, now) > c * 31536000).map_values(
                |s: Snapshot| s.snapshot@,
            ),
        ),
{
    reveal_strlit("count");
    reveal_strlit("minute");
    reveal_strlit("hour");
    reveal_strlit("day");
    reveal_strlit("week");
    reveal_strlit("year");
    assert("minute"@ != "count"@ && "hour"@ != "count"@ && "day"@ != "count"@ && "week"@ != "count"@
        && "year"@ != "count"@) by {
        assert("minute"@.len() != "count"@.len());
        assert("hour"@.len() != "count"@.len());
        assert("day"@.len() != "count"@.len());
        assert("week"@.len() != "count"@.len());
        assert("year"@.len() != "count"@.len());
    }
    assert("hour"@ != "minute"@ && "day"@ != "minute"@ && "week"@ != "minute"@ && "year"@ != "minute"@)
        by {
        assert("hour"@.len() != "minute"@.len() && "day"@.len() != "minute"@.len());
        assert("week"@.len() != "minute"@.len() && "year"@.len() != "minute"@.len());
    }
    assert("day"@ != "hour"@) by {
        assert("day"@.len() != "hour"@.len());
    }
    assert("week"@ != "hour"@ && "week"@ != "day"@) by {
        assert("week"@[0] != "hour"@[0]);
    }
    assert("year"@ != "hour"@ && "year"@ != "day"@ && "year"@ != "week"@) by {
        assert("year"@[0] != "hour"@[0] && "year"@[0] != "week"@[0]);
    }
    lemma_time_rule_destroys_older(snaps, "minute"@, value, now, c, 60);
    lemma_time_rule_destroys_older(snaps, "hour"@, value, now, c, 3600);
    lemma_time_rule_destroys_older(snaps, "day"@, value, now, c, 86400);
    lemma_time_rule_destroys_older(snaps, "week"@, value, now, c, 604800);
    lemma_time_rule_destroys_older(snaps, "year"@, value, now, c, 31536000);
}

proof fn lemma_older_than_filter(snaps: Seq<Snapshot>, seconds: int, now: i64)
    requires
        forall|i: int| 0 <= i < snaps.len() ==> (#[trigger] parse_i64(snaps[i].date@)) is Some,
        forall|i: int|
            0 <= i < snaps.len() ==> i64::MIN <= #[trigger] snapshot_age(snaps[i], now) <= i64::MAX,
    ensures
        older_than(snaps, seconds, now) == Some(
            snaps.filter(|s: Snapshot| snapshot_age(s, now) > seconds).map_values(
                |s: Snapshot| s.snapshot@,
            ),
        ),
    decreases snaps.len(),
{
    let p = |s: Snapshot| snapshot_age(s, now) > seconds;
    if snaps.len() == 0 {
        assert(snaps.filter(p) =~= Seq::<Snapshot>::empty()) by {
            reveal(Seq::filter);
        }
        assert(snaps.filter(p).map_values(|s: Snapshot| s.snapshot@) =~= Seq::<Seq<char>>::empty());
    } else {
        let rest = snaps.drop_first();
        assert forall|i: int| 0 <= i < rest.len() implies (#[trigger] parse_i64(rest[i].date@)) is Some by {
            assert(rest[i] == snaps[i + 1]);
        }
        assert forall|i: int| 0 <= i < rest.len() implies i64::MIN <= #[trigger] snapshot_age(rest[i], now) <= i64::MAX by {
            assert(rest[i] == snaps[i + 1]);
        }
        lemma_older_than_filter(rest, seconds, now);
        assert(parse_i64(snaps[0].date@) is Some);
        assert(i64::MIN <= snapshot_age(snaps[0], now) <= i64::MAX);
        assert(snaps =~= seq![snaps[0]] + rest);
        rest.lemma_filter_prepend(snaps[0], p);
        let head = if p(snaps[0]) { seq![snaps[0]] } else { Seq::<Snapshot>::empty() };
        assert((head + rest.filter(p)).map_values(|s: Snapshot| s.snapshot@) =~= head.map_values(
            |s: Snapshot| s.snapshot@,
        ) + rest.filter(p).map_values(|s: Snapshot| s.snapshot@));
        if p(snaps[0]) {
            assert(head.map_values(|s: Snapshot| s.snapshot@) =~= seq![snaps[0].snapshot@]);
        } else {
            assert(head.map_values(|s: Snapshot| s.snapshot@) =~= Seq::<Seq<char>>::empty());
            assert(Seq::<Seq<char>>::empty() + rest.filter(p).map_values(|s: Snapshot| s.snapshot@)
                =~= rest.filter(p).map_values(|s: Snapshot| s.snapshot@));
        }
    }
}

/// A unit that is neither `count` nor a time unit (such as `none`) destroys
/// nothing, whatever the value.
pub proof fn lemma_other_units_keep_all(snaps: Seq<Snapshot>, unit: Seq<char>, value: Seq<char>, now: i64)
    requires
        unit != "count"@,
        period_seconds(unit) is None,
    ensures
        purge_outcome(snaps, unit, value, now) == Some(Seq::<Seq<char>>::empty()),
{
}


/// The `grep` pattern that picks a job's snapshots out of the listing of its
/// dataset: `dataset@prefix.*postfix`.
pub fn snapshot_pattern(dataset: &str, prefix: &str, postfix: &str) -> (r: String)
    ensures
        r@ == dataset@ + "@"@ + prefix@ + ".*"@ + postfix@,
{
    dataset.to_owned().concat("@").concat(prefix).concat(".*").concat(postfix)
}

/// The arguments of the `zfs` command that destroys a snapshot (with `-r` for a
/// recursive job).
pub fn destroy_args(snapshot: &str, recursive: bool) -> (r: Vec<String>)
    ensures
        r@.map_values(|s: String| s@) == if recursive {
            seq!["destroy"@, "-r"@, snapshot@]
        } else {
            seq!["destroy"@, snapshot@]
        },
{
    let mut v: Vec<String> = Vec::new();
    v.push("destroy".to_owned());
    if recursive {
        v.push("-r".to_owned());
    }
    v.push(snapshot.to_owned());
    if recursive {
        assert(v@.map_values(|s: String| s@) =~= seq!["destroy"@, "-r"@, snapshot@]);
    } else {
        assert(v@.map_values(|s: String| s@) =~= seq!["destroy"@, snapshot@]);
    }
    v
}

} // verus!
