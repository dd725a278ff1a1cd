//! Totals, breakdowns and rankings of time records over a window, the
//! calendar windows they are taken over, and durations as text.
use vstd::prelude::*;

use crate::models::{in_window, ProjectTimeBreakdown, TimeRecord, Timestamp};
use crate::platform::{month_start, month_start_secs, MAX_YEAR, MIN_YEAR};
use crate::seqs::{keys_distinct, lemma_full_prefix};
use crate::text::{duration_text, push_int};
use std::collections::HashMap;

verus! {

broadcast use vstd::std_specs::hash::group_hash_axioms;

/// Seconds in one day.
pub const SECS_PER_DAY: i64 = 86400;

/// The records behind a sequence of references.
pub open spec fn deref_records(s: Seq<&TimeRecord>) -> Seq<TimeRecord> {
    s.map_values(|r: &TimeRecord| *r)
}

/// The sum of the minutes of the records of `s` that `p` picks.
pub open spec fn sum_where(s: Seq<TimeRecord>, p: spec_fn(TimeRecord) -> bool) -> int
    decreases s.len(),
{
    if s.len() == 0 {
        0
    } else {
        sum_where(s.drop_last(), p) + if p(s.last()) {
            s.last().duration_minutes as int
        } else {
            0
        }
    }
}

/// The number of records of `s` that `p` picks.
pub open spec fn count_where(s: Seq<TimeRecord>, p: spec_fn(TimeRecord) -> bool) -> int
    decreases s.len(),
{
    if s.len() == 0 {
        0
    } else {
        count_where(s.drop_last(), p) + if p(s.last()) {
            1int
        } else {
            0
        }
    }
}

/// The sum of the absolute minutes of all records of `s`.
pub open spec fn abs_minutes(s: Seq<TimeRecord>) -> int
    decreases s.len(),
{
    if s.len() == 0 {
        0
    } else {
        abs_minutes(s.drop_last()) + if s.last().duration_minutes >= 0 {
            s.last().duration_minutes as int
        } else {
            -s.last().duration_minutes
        }
    }
}

/// Every total over `s` fits in an `i64`.
pub open spec fn minutes_fit(s: Seq<TimeRecord>) -> bool {
    abs_minutes(s) <= i64::MAX
}

/// Project records that start within `[lo, hi]`.
pub open spec fn project_in(lo: Timestamp, hi: Timestamp) -> spec_fn(TimeRecord) -> bool {
    |r: TimeRecord| r.project_id.is_some() && in_window(r.start_time, lo, hi)
}

/// Records outside any project that start within `[lo, hi]`.
pub open spec fn non_project_in(lo: Timestamp, hi: Timestamp) -> spec_fn(TimeRecord) -> bool {
    |r: TimeRecord| r.project_id.is_none() && in_window(r.start_time, lo, hi)
}

/// Records that start within `[lo, hi]`.
pub open spec fn starting_in(lo: Timestamp, hi: Timestamp) -> spec_fn(TimeRecord) -> bool {
    |r: TimeRecord| in_window(r.start_time, lo, hi)
}

/// Records of project `id` that start within `[lo, hi]`.
pub open spec fn of_project_in(id: u128, lo: Timestamp, hi: Timestamp) -> spec_fn(TimeRecord) -> bool {
    |r: TimeRecord| r.project_id == Some(id) && in_window(r.start_time, lo, hi)
}

/// Records of project `id` that start no earlier than `lo` and no later than
/// `hi`, an absent bound leaving that side open.
pub open spec fn of_project_between(
    id: u128,
    lo: Option<Timestamp>,
    hi: Option<Timestamp>,
) -> spec_fn(TimeRecord) -> bool {
    |r: TimeRecord|
        r.project_id == Some(id) && (lo matches Some(l) ==> l.instant() <= r.start_time.instant())
            && (hi matches Some(h) ==> r.start_time.instant() <= h.instant())
}

/// Which records a total is taken over.
enum Pick {
    Project(Timestamp, Timestamp),
    NonProject(Timestamp, Timestamp),
    OfProject(u128, Option<Timestamp>, Option<Timestamp>),
}

spec fn pick_fn(k: Pick) -> spec_fn(TimeRecord) -> bool {
    match k {
        Pick::Project(lo, hi) => project_in(lo, hi),
        Pick::NonProject(lo, hi) => non_project_in(lo, hi),
        Pick::OfProject(id, lo, hi) => of_project_between(id, lo, hi),
    }
}

fn picks(r: &TimeRecord, k: &Pick) -> (b: bool)
    ensures
        b == pick_fn(*k)(*r),
{
    match k {
        Pick::Project(lo, hi) => r.project_id.is_some() && r.start_time.within(lo, hi),
        Pick::NonProject(lo, hi) => r.project_id.is_none() && r.start_time.within(lo, hi),
        Pick::OfProject(id, lo, hi) => {
            let after = match lo {
                Some(l) => l.not_after(&r.start_time),
                None => true,
            };
            let before = match hi {
                Some(h) => r.start_time.not_after(h),
                None => true,
            };
            r.project_id == Some(*id) && after && before
        },
    }
}

/// A total over some of the records lies within the absolute total.
proof fn lemma_sum_bounded(s: Seq<TimeRecord>, p: spec_fn(TimeRecord) -> bool)
    ensures
        -abs_minutes(s) <= sum_where(s, p) <= abs_minutes(s),
        0 <= count_where(s, p) <= s.len(),
    decreases s.len(),
{
    if s.len() > 0 {
        lemma_sum_bounded(s.drop_last(), p);
    }
}

/// The absolute total of a prefix is at most that of the whole.
proof fn lemma_abs_prefix(s: Seq<TimeRecord>, i: int)
    requires
        0 <= i <= s.len(),
    ensures
        abs_minutes(s.subrange(0, i)) <= abs_minutes(s),
    decreases s.len() - i,
{
    if i < s.len() {
        lemma_abs_prefix(s, i + 1);
        assert(s.subrange(0, i + 1).drop_last() =~= s.subrange(0, i));
    } else {
        assert(s.subrange(0, i) =~= s);
    }
}

/// The records behind `s[0..i + 1]`, read one at a time.
proof fn lemma_deref_prefix(s: Seq<&TimeRecord>, i: int)
    requires
        0 <= i < s.len(),
    ensures
        deref_records(s).subrange(0, i + 1).drop_last() == deref_records(s).subrange(0, i),
        deref_records(s).subrange(0, i + 1).last() == *s[i],
        deref_records(s).len() == s.len(),
{
    assert(deref_records(s).subrange(0, i + 1).drop_last() =~= deref_records(s).subrange(0, i));
}

/// The sum of the minutes of the records that `k` picks.
fn sum_picked(time_records: &[&TimeRecord], k: Pick) -> (r: i64)
    requires
        minutes_fit(deref_records(time_records@)),
    ensures
        r == sum_where(deref_records(time_records@), pick_fn(k)),
{
    let ghost t = deref_records(time_records@);
    let mut total: i64 = 0;
    let mut i: usize = 0;
    while i < time_records.len()
        invariant
            0 <= i <= time_records@.len(),
            t == deref_records(time_records@),
            minutes_fit(t),
            total == sum_where(t.subrange(0, i as int), pick_fn(k)),
        decreases time_records@.len() - i,
    {
        proof {
            lemma_deref_prefix(time_records@, i as int);
            lemma_sum_bounded(t.subrange(0, i + 1), pick_fn(k));
            lemma_abs_prefix(t, i + 1);
        }
        if picks(time_records[i], &k) {
            total = total + time_records[i].duration_minutes;
        }
        i += 1;
    }
    proof {
        lemma_full_prefix(t);
    }
    total
}

/// The week of an instant: the number of days from the Monday at or before
/// it, Monday being 0 and Sunday 6.
pub open spec fn weekday_index(secs: int) -> int {
    (secs / 86400 + 3) % 7
}

/// The Monday at or before `t`, at the time of day of `t`.
pub open spec fn week_start_of(t: Timestamp) -> Timestamp {
    Timestamp { secs: (t.secs - weekday_index(t.secs as int) * 86400) as i64, nanos: t.nanos }
}

/// The Sunday at or after `t`, at the time of day of `t`.
pub open spec fn week_end_of(t: Timestamp) -> Timestamp {
    Timestamp { secs: (t.secs + (6 - weekday_index(t.secs as int)) * 86400) as i64, nanos: t.nanos }
}

/// Midnight at the start of the day of `t`.
pub open spec fn day_start_of(t: Timestamp) -> Timestamp {
    Timestamp { secs: ((t.secs as int / 86400) * 86400) as i64, nanos: 0 }
}

/// The last whole second of the day of `t`.
pub open spec fn day_end_of(t: Timestamp) -> Timestamp {
    Timestamp { secs: ((t.secs as int / 86400) * 86400 + 86399) as i64, nanos: 0 }
}

/// Instants whose day lies within what `i64` seconds hold.
pub open spec fn day_in_range(t: Timestamp) -> bool {
    i64::MIN + 86400 <= t.secs <= i64::MAX - 86400
}

/// Instants whose week lies within what `i64` seconds hold.
pub open spec fn week_in_range(t: Timestamp) -> bool {
    i64::MIN + 7 * 86400 <= t.secs <= i64::MAX - 7 * 86400
}

/// The days since the epoch of an instant.
fn day_number(t: &Timestamp) -> (r: i64)
    ensures
        r == t.secs as int / 86400,
{
    match t.secs.checked_div_euclid(SECS_PER_DAY) {
        Some(d) => d,
        None => 0,
    }
}

/// The number of days from Monday of the week of `t`.
fn days_from_monday(t: &Timestamp) -> (r: i64)
    ensures
        r == weekday_index(t.secs as int),
        0 <= r < 7,
{
    let d = day_number(t);
    assert(-106751991167301 <= d <= 106751991167300) by {
        assert(d == t.secs as int / 86400);
    }
    match (d + 3).checked_rem_euclid(7) {
        Some(w) => w,
        None => 0,
    }
}

/// A duration in minutes as text: minutes alone under an hour; hours and any
/// leftover minutes under a day; else days followed by whichever of the
/// leftover hours and minutes are not zero.
pub fn format_duration_text(minutes: i64) -> (r: String)
    ensures
        r@ == duration_text(minutes as int),
{
    let mut s = String::new();
    if minutes < 60 {
        push_int(&mut s, minutes as i128);
        s.append("分钟");
    } else if minutes < 1440 {
        push_int(&mut s, (minutes / 60) as i128);
        s.append("小时");
        if minutes % 60 != 0 {
            push_int(&mut s, (minutes % 60) as i128);
            s.append("分钟");
        }
    } else {
        push_int(&mut s, (minutes / 1440) as i128);
        s.append("天");
        if (minutes % 1440) / 60 > 0 {
            push_int(&mut s, ((minutes % 1440) / 60) as i128);
            s.append("小时");
        }
        if minutes % 60 > 0 {
            push_int(&mut s, (minutes % 60) as i128);
            s.append("分钟");
        }
    }
    s
}

/// The name that a lookup table gives a project, or the fallback.
pub open spec fn resolved_name(names: Map<u128, String>, id: u128) -> Seq<char> {
    if names.contains_key(id) {
        names[id]@
    } else {
        "未知项目"@
    }
}

/// Whether `b` is the per-project breakdown of the project records of `t`
/// that start within `[lo, hi]`: one entry for each project that has such a
/// record, in some order, with its minutes, its number of records and its
/// resolved name.
pub open spec fn is_breakdown(
    b: Seq<ProjectTimeBreakdown>,
    t: Seq<TimeRecord>,
    names: Map<u128, String>,
    lo: Timestamp,
    hi: Timestamp,
) -> bool {
    &&& forall|i: int, j: int|
        0 <= i < b.len() && 0 <= j < b.len() && i != j ==> (#[trigger] b[i]).project_id != (
        #[trigger] b[j]).project_id
    &&& forall|k: int|
        0 <= k < b.len() ==> {
            let e = #[trigger] b[k];
            &&& e.total_time_minutes == sum_where(t, of_project_in(e.project_id, lo, hi))
            &&& e.event_count == count_where(t, of_project_in(e.project_id, lo, hi))
            &&& e.event_count >= 1
            &&& e.project_name@ == resolved_name(names, e.project_id)
        }
    &&& forall|j: int|
        0 <= j < t.len() && project_in(lo, hi)(#[trigger] t[j]) ==> exists|k: int|
            0 <= k < b.len() && Some(#[trigger] b[k].project_id) == t[j].project_id
}

/// A ranking row: a project's name and minutes.
pub open spec fn row_of(e: ProjectTimeBreakdown) -> (String, i64) {
    (e.project_name, e.total_time_minutes)
}

/// Rows in order of minutes, the most first.
pub open spec fn ranked(r: Seq<(String, i64)>) -> bool {
    forall|i: int, j: int| 0 <= i < j < r.len() ==> (#[trigger] r[i]).1 >= (#[trigger] r[j]).1
}

/// For every window, the project minutes and the non-project minutes add up
/// to the minutes of all records that start within it.
pub proof fn law_window_split(t: Seq<TimeRecord>, lo: Timestamp, hi: Timestamp)
    ensures
        sum_where(t, project_in(lo, hi)) + sum_where(t, non_project_in(lo, hi)) == sum_where(
            t,
            starting_in(lo, hi),
        ),
    decreases t.len(),
{
    if t.len() > 0 {
        law_window_split(t.drop_last(), lo, hi);
    }
}

/// Where no record has negative minutes, the project minutes of a window lie
/// between zero and the window's total, so their share of it lies between 0
/// and 100 percent; an empty total leaves no project minutes.
pub proof fn law_efficiency_share(t: Seq<TimeRecord>, lo: Timestamp, hi: Timestamp)
    requires
        forall|i: int| 0 <= i < t.len() ==> (#[trigger] t[i]).duration_minutes >= 0,
    ensures
        0 <= sum_where(t, project_in(lo, hi)),
        0 <= sum_where(t, non_project_in(lo, hi)),
        sum_where(t, project_in(lo, hi)) <= sum_where(t, project_in(lo, hi)) + sum_where(
            t,
            non_project_in(lo, hi),
        ),
        sum_where(t, project_in(lo, hi)) + sum_where(t, non_project_in(lo, hi)) == 0 ==> sum_where(
            t,
            project_in(lo, hi),
        ) == 0,
    decreases t.len(),
{
    if t.len() > 0 {
        assert(t.drop_last().len() == t.len() - 1);
        assert forall|i: int| 0 <= i < t.drop_last().len() implies (#[trigger] t.drop_last()[i]).duration_minutes >= 0 by {
            assert(t.drop_last()[i] == t[i]);
        }
        assert(t.last() == t[t.len() - 1]);
        law_efficiency_share(t.drop_last(), lo, hi);
    }
}

/// Per-project totals over the prefix `u` of the records, kept as
/// `(project, minutes, records)`.
spec fn tallies(acc: Seq<(u128, i64, i32)>, u: Seq<TimeRecord>, lo: Timestamp, hi: Timestamp) -> bool {
    &&& forall|i: int, j: int|
        0 <= i < acc.len() && 0 <= j < acc.len() && i != j ==> (#[trigger] acc[i]).0 != (
        #[trigger] acc[j]).0
    &&& forall|k: int|
        0 <= k < acc.len() ==> {
            let e = #[trigger] acc[k];
            &&& e.1 == sum_where(u, of_project_in(e.0, lo, hi))
            &&& e.2 == count_where(u, of_project_in(e.0, lo, hi))
            &&& e.2 >= 1
        }
    &&& forall|id: u128|
        (forall|k: int| 0 <= k < acc.len() ==> (#[trigger] acc[k]).0 != id) ==> {
            &&& #[trigger] sum_where(u, of_project_in(id, lo, hi)) == 0
            &&& count_where(u, of_project_in(id, lo, hi)) == 0
        }
    &&& forall|j: int|
        0 <= j < u.len() && project_in(lo, hi)(#[trigger] u[j]) ==> exists|k: int|
            0 <= k < acc.len() && Some(#[trigger] acc[k].0) == u[j].project_id
}

/// Where project `pid` stands among the tallies.
fn find_tally(acc: &Vec<(u128, i64, i32)>, pid: u128) -> (r: usize)
    ensures
        r <= acc@.len(),
        r < acc@.len() ==> acc@[r as int].0 == pid,
        r == acc@.len() ==> forall|m: int| 0 <= m < acc@.len() ==> (#[trigger] acc@[m]).0 != pid,
{
    let mut k: usize = 0;
    while k < acc.len()
        invariant
            0 <= k <= acc@.len(),
            forall|m: int| 0 <= m < k ==> (#[trigger] acc@[m]).0 != pid,
        decreases acc@.len() - k,
    {
        if acc[k].0 == pid {
            return k;
        }
        k += 1;
    }
    k
}

/// Where a row of `minutes` goes in a ranking: after every row with at least
/// as many minutes.
fn insert_position(out: &Vec<(String, i64)>, minutes: i64) -> (r: usize)
    ensures
        r <= out@.len(),
        forall|m: int| 0 <= m < r ==> (#[trigger] out@[m]).1 >= minutes,
        r < out@.len() ==> out@[r as int].1 < minutes,
{
    let mut k: usize = 0;
    while k < out.len()
        invariant
            0 <= k <= out@.len(),
            forall|m: int| 0 <= m < k ==> (#[trigger] out@[m]).1 >= minutes,
        decreases out@.len() - k,
    {
        if out[k].1 < minutes {
            return k;
        }
        k += 1;
    }
    k
}

/// The rows of a breakdown, the most minutes first; rows with equal minutes
/// keep the breakdown's order.
pub fn rank_breakdown(b: &Vec<ProjectTimeBreakdown>) -> (r: Vec<(String, i64)>)
    ensures
        ranked(r@),
        r@.to_multiset() == b@.map_values(|e: ProjectTimeBreakdown| row_of(e)).to_multiset(),
{
    let ghost rows = b@.map_values(|e: ProjectTimeBreakdown| row_of(e));
    let mut out: Vec<(String, i64)> = Vec::new();
    let mut i: usize = 0;
    assert(out@ =~= rows.subrange(0, 0));
    while i < b.len()
        invariant
            0 <= i <= b@.len(),
            rows == b@.map_values(|e: ProjectTimeBreakdown| row_of(e)),
            ranked(out@),
            out@.to_multiset() == rows.subrange(0, i as int).to_multiset(),
        decreases b@.len() - i,
    {
        let row = (b[i].project_name.clone(), b[i].total_time_minutes);
        let k = insert_position(&out, row.1);
        let ghost before = out@;
        out.insert(k, row);
        proof {
            assert(row == rows[i as int]);
            assert(rows.subrange(0, i + 1) =~= rows.subrange(0, i as int).push(rows[i as int]));
            vstd::seq_lib::to_multiset_insert(before, k as int, row);
            vstd::seq_lib::to_multiset_build(rows.subrange(0, i as int), row);
            let o = out@;
            assert forall|a: int, c: int| 0 <= a < c < o.len() implies (#[trigger] o[a]).1 >= (#[trigger] o[c]).1 by {
                if c < k {
                    assert(o[a] == before[a] && o[c] == before[c]);
                } else if c == k {
                    assert(o[a] == before[a]);
                } else if a < k {
                    assert(o[a] == before[a] && o[c] == before[c - 1]);
                    assert(before[k as int].1 < row.1);
                    if c - 1 > k {
                        assert(before[k as int].1 >= before[c - 1].1);
                    }
                } else if a == k {
                    assert(o[c] == before[c - 1]);
                    assert(before[k as int].1 < row.1);
                    if c - 1 > k {
                        assert(before[k as int].1 >= before[c - 1].1);
                    }
                } else {
                    assert(o[a] == before[a - 1] && o[c] == before[c - 1]);
                }
            }
        }
        i += 1;
    }
    proof {
        lemma_full_prefix(rows);
    }
    out
}

/// Whether every total over the records fits in an `i64`.
pub fn totals_fit(time_records: &[&TimeRecord]) -> (r: bool)
    ensures
        r == minutes_fit(deref_records(time_records@)),
{
    let ghost t = deref_records(time_records@);
    let mut total: i128 = 0;
    let mut i: usize = 0;
    while i < time_records.len()
        invariant
            0 <= i <= time_records@.len(),
            t == deref_records(time_records@),
            total == abs_minutes(t.subrange(0, i as int)),
            total <= i64::MAX,
        decreases time_records@.len() - i,
    {
        proof {
            lemma_deref_prefix(time_records@, i as int);
        }
        let d = time_records[i].duration_minutes;
        let a: i128 = if d >= 0 { d as i128 } else { -(d as i128) };
        total = total + a;
        if total > i64::MAX as i128 {
            proof {
                lemma_abs_prefix(t, i + 1);
            }
            return false;
        }
        i += 1;
    }
    proof {
        lemma_full_prefix(t);
    }
    true
}

/// Stateless computations over time records.
pub struct TimeCalculator;

impl TimeCalculator {
    /// Minutes of project records that start within `[start_time, end_time]`.
    pub fn calculate_project_time(
        time_records: &[&TimeRecord],
        start_time: Timestamp,
        end_time: Timestamp,
    ) -> (r: i64)
        requires
            minutes_fit(deref_records(time_records@)),
        ensures
            r == sum_where(deref_records(time_records@), project_in(start_time, end_time)),
    {
        sum_picked(time_records, Pick::Project(start_time, end_time))
    }

    /// Minutes of records outside any project that start within
    /// `[start_time, end_time]`.
    pub fn calculate_non_project_time(
        time_records: &[&TimeRecord],
        start_time: Timestamp,
        end_time: Timestamp,
    ) -> (r: i64)
        requires
            minutes_fit(deref_records(time_records@)),
        ensures
            r == sum_where(deref_records(time_records@), non_project_in(start_time, end_time)),
    {
        sum_picked(time_records, Pick::NonProject(start_time, end_time))
    }

    /// Minutes of the records of one project, within whichever bounds are
    /// given.
    pub fn calculate_project_total_time(
        time_records: &[&TimeRecord],
        project_id: u128,
        start_time: Option<Timestamp>,
        end_time: Option<Timestamp>,
    ) -> (r: i64)
        requires
            minutes_fit(deref_records(time_records@)),
        ensures
            r == sum_where(
                deref_records(time_records@),
                of_project_between(project_id, start_time, end_time),
            ),
    {
        sum_picked(time_records, Pick::OfProject(project_id, start_time, end_time))
    }

    /// Per project, the minutes and the number of the project records that
    /// start within `[start_time, end_time]`, with the project's name from
    /// `project_names`, or a fallback name where it has none.
    pub fn generate_project_breakdown(
        time_records: &[&TimeRecord],
        project_names: &HashMap<u128, String>,
        start_time: Timestamp,
        end_time: Timestamp,
    ) -> (r: Vec<ProjectTimeBreakdown>)
        requires
            minutes_fit(deref_records(time_records@)),
            time_records@.len() <= i32::MAX,
        ensures
            is_breakdown(r@, deref_records(time_records@), project_names@, start_time, end_time),
    {
        let ghost t = deref_records(time_records@);
        let ghost lo = start_time;
        let ghost hi = end_time;
        let mut acc: Vec<(u128, i64, i32)> = Vec::new();
        let mut i: usize = 0;
        proof {
            assert(t.subrange(0, 0) =~= Seq::<TimeRecord>::empty());
        }
        while i < time_records.len()
            invariant
                0 <= i <= time_records@.len(),
                time_records@.len() <= i32::MAX,
                t == deref_records(time_records@),
                lo == start_time && hi == end_time,
                minutes_fit(t),
                acc@.len() <= i,
                tallies(acc@, t.subrange(0, i as int), lo, hi),
            decreases time_records@.len() - i,
        {
            let ghost u = t.subrange(0, i as int);
            let ghost u2 = t.subrange(0, i + 1);
            let ghost before = acc@;
            let x = time_records[i];
            proof {
                lemma_deref_prefix(time_records@, i as int);
                lemma_abs_prefix(t, i + 1);
                assert(u2.drop_last() == u);
                assert(u2.last() == *x);
                assert forall|id: u128| #[trigger] sum_where(u2, of_project_in(id, lo, hi)) == sum_where(
                    u,
                    of_project_in(id, lo, hi),
                ) + if of_project_in(id, lo, hi)(*x) {
                    x.duration_minutes as int
                } else {
                    0
                } && count_where(u2, of_project_in(id, lo, hi)) == count_where(
                    u,
                    of_project_in(id, lo, hi),
                ) + if of_project_in(id, lo, hi)(*x) {
                    1int
                } else {
                    0
                } by {}
            }
            let picked = x.project_id.is_some() && x.start_time.within(&start_time, &end_time);
            let ghost mut kk: int = -1;
            if picked {
                let pid = match x.project_id {
                    Some(p) => p,
                    None => 0,
                };
                let k = find_tally(&acc, pid);
                proof {
                    lemma_sum_bounded(u2, of_project_in(pid, lo, hi));
                    kk = k as int;
                }
                if k < acc.len() {
                    let (q, tot, cnt) = acc[k];
                    proof {
                        assert(acc@[k as int].0 == pid);
                        assert(cnt as int + 1 == count_where(u2, of_project_in(pid, lo, hi)));
                        assert(count_where(u2, of_project_in(pid, lo, hi)) <= i + 1);
                    }
                    acc.set(k, (q, tot + x.duration_minutes, cnt + 1));
                } else {
                    acc.push((pid, x.duration_minutes, 1));
                }
            }
            proof {
                let a = acc@;
                assert(picked ==> 0 <= kk < a.len() && Some(a[kk].0) == x.project_id);
                assert(!picked ==> a == before);
                assert forall|m: int| 0 <= m < a.len() && m != kk implies m < before.len() && #[trigger] a[m] == before[m] by {}
                assert forall|m: int| 0 <= m < a.len() && m != kk implies !of_project_in((#[trigger] a[m]).0, lo, hi)(*x) by {
                    if picked && of_project_in(a[m].0, lo, hi)(*x) {
                        if kk < before.len() {
                            assert(before[m].0 != before[kk].0);
                        } else {
                            assert(before[m].0 != x.project_id.unwrap());
                        }
                    }
                }
                assert forall|i2: int, j2: int|
                    0 <= i2 < a.len() && 0 <= j2 < a.len() && i2 != j2 implies (#[trigger] a[i2]).0 != (
                    #[trigger] a[j2]).0 by {
                    if i2 != kk && j2 != kk {
                        assert(before[i2].0 != before[j2].0);
                    } else if i2 == kk && kk < before.len() {
                        assert(before[j2].0 != before[kk].0);
                    } else if j2 == kk && kk < before.len() {
                        assert(before[i2].0 != before[kk].0);
                    }
                }
                assert forall|m: int| 0 <= m < a.len() implies {
                    let e = #[trigger] a[m];
                    &&& e.1 == sum_where(u2, of_project_in(e.0, lo, hi))
                    &&& e.2 == count_where(u2, of_project_in(e.0, lo, hi))
                    &&& e.2 >= 1
                } by {
                    let e = a[m];
                    assert(sum_where(u2, of_project_in(e.0, lo, hi)) == sum_where(u, of_project_in(e.0, lo, hi))
                        + if of_project_in(e.0, lo, hi)(*x) { x.duration_minutes as int } else { 0 });
                    if m == kk && kk >= before.len() {
                        assert(forall|k: int| 0 <= k < before.len() ==> (#[trigger] before[k]).0 != e.0);
                    }
                }
                assert forall|id: u128|
                    (forall|k: int| 0 <= k < a.len() ==> (#[trigger] a[k]).0 != id) implies {
                        &&& #[trigger] sum_where(u2, of_project_in(id, lo, hi)) == 0
                        &&& count_where(u2, of_project_in(id, lo, hi)) == 0
                    } by {
                    assert(sum_where(u2, of_project_in(id, lo, hi)) == sum_where(u, of_project_in(id, lo, hi))
                        + if of_project_in(id, lo, hi)(*x) { x.duration_minutes as int } else { 0 });
                    assert forall|k: int| 0 <= k < before.len() implies (#[trigger] before[k]).0 != id by {
                        if k != kk {
                            assert(a[k] == before[k]);
                        } else {
                            assert(a[k].0 == before[k].0);
                        }
                    }
                    if picked {
                        assert(a[kk].0 != id);
                    }
                }
                assert forall|j: int|
                    0 <= j < u2.len() && project_in(lo, hi)(#[trigger] u2[j]) implies exists|k: int|
                        0 <= k < a.len() && Some(#[trigger] a[k].0) == u2[j].project_id by {
                    if j < u.len() {
                        assert(u2[j] == u[j]);
                        let k0 = choose|k: int| 0 <= k < before.len() && Some(#[trigger] before[k].0) == u[j].project_id;
                        if k0 == kk {
                            assert(a[k0].0 == before[k0].0);
                        } else {
                            assert(a[k0] == before[k0]);
                        }
                    } else {
                        assert(u2[j] == *x);
                        assert(Some(a[kk].0) == u2[j].project_id);
                    }
                }
            }
            i += 1;
        }
        proof {
            lemma_full_prefix(t);
        }
        let mut r: Vec<ProjectTimeBreakdown> = Vec::new();
        let mut k: usize = 0;
        while k < acc.len()
            invariant
                0 <= k <= acc@.len(),
                tallies(acc@, t, lo, hi),
                r@.len() == k,
                forall|m: int|
                    0 <= m < k ==> {
                        let e = #[trigger] r@[m];
                        &&& e.project_id == acc@[m].0
                        &&& e.total_time_minutes == acc@[m].1
                        &&& e.event_count == acc@[m].2
                        &&& e.project_name@ == resolved_name(project_names@, e.project_id)
                    },
            decreases acc@.len() - k,
        {
            let (pid, tot, cnt) = acc[k];
            let name = match project_names.get(&pid) {
                Some(n) => n.clone(),
                None => {
                    proof {
                        reveal_strlit("未知项目");
                    }
                    String::from_str("未知项目")
                },
            };
            r.push(ProjectTimeBreakdown {
                project_id: pid,
                project_name: name,
                total_time_minutes: tot,
                event_count: cnt,
            });
            k += 1;
        }
        proof {
            let b = r@;
            assert forall|i2: int, j2: int|
                0 <= i2 < b.len() && 0 <= j2 < b.len() && i2 != j2 implies (#[trigger] b[i2]).project_id != (
                #[trigger] b[j2]).project_id by {
                assert(acc@[i2].0 != acc@[j2].0);
            }
            assert forall|j: int|
                0 <= j < t.len() && project_in(lo, hi)(#[trigger] t[j]) implies exists|k2: int|
                    0 <= k2 < b.len() && Some(#[trigger] b[k2].project_id) == t[j].project_id by {
                let k0 = choose|k2: int| 0 <= k2 < acc@.len() && Some(#[trigger] acc@[k2].0) == t[j].project_id;
                assert(b[k0].project_id == acc@[k0].0);
            }
        }
        r
    }

    /// The breakdown's names and minutes, the most minutes first; rows with
    /// equal minutes keep the breakdown's order.
    pub fn get_project_ranking(
        time_records: &[&TimeRecord],
        project_names: &HashMap<u128, String>,
        start_time: Timestamp,
        end_time: Timestamp,
    ) -> (r: Vec<(String, i64)>)
        requires
            minutes_fit(deref_records(time_records@)),
            time_records@.len() <= i32::MAX,
        ensures
            ranked(r@),
            exists|b: Seq<ProjectTimeBreakdown>|
                is_breakdown(b, deref_records(time_records@), project_names@, start_time, end_time)
                    && r@.to_multiset() == b.map_values(|e: ProjectTimeBreakdown| row_of(e)).to_multiset(),
    {
        let b = Self::generate_project_breakdown(time_records, project_names, start_time, end_time);
        rank_breakdown(&b)
    }

    /// The Monday at or before `date`, at the same time of day.
    pub fn get_week_start(date: Timestamp) -> (r: Timestamp)
        requires
            week_in_range(date),
        ensures
            r == week_start_of(date),
    {
        let d = days_from_monday(&date);
        Timestamp { secs: date.secs - d * SECS_PER_DAY, nanos: date.nanos }
    }

    /// The Sunday at or after `date`, at the same time of day.
    pub fn get_week_end(date: Timestamp) -> (r: Timestamp)
        requires
            week_in_range(date),
        ensures
            r == week_end_of(date),
    {
        let d = days_from_monday(&date);
        Timestamp { secs: date.secs + (6 - d) * SECS_PER_DAY, nanos: date.nanos }
    }

    /// The records that start within the week of `date`.
    pub fn get_week_time_records<'a>(time_records: &'a [&'a TimeRecord], date: Timestamp) -> (r: Vec<
        &'a TimeRecord,
    >)
        requires
            week_in_range(date),
        ensures
            deref_records(r@) == deref_records(time_records@).filter(
                starting_in(week_start_of(date), week_end_of(date)),
            ),
    {
        let lo = Self::get_week_start(date);
        let hi = Self::get_week_end(date);
        let ghost t = deref_records(time_records@);
        let ghost p = starting_in(lo, hi);
        let mut r: Vec<&TimeRecord> = Vec::new();
        let mut i: usize = 0;
        while i < time_records.len()
            invariant
                0 <= i <= time_records@.len(),
                t == deref_records(time_records@),
                p == starting_in(lo, hi),
                deref_records(r@) == t.subrange(0, i as int).filter(p),
            decreases time_records@.len() - i,
        {
            proof {
                crate::seqs::lemma_filter_step(t, p, i as int);
                crate::seqs::lemma_deref_push(r@, time_records@[i as int]);
                assert(t[i as int] == *time_records@[i as int]);
            }
            if time_records[i].start_time.within(&lo, &hi) {
                r.push(time_records[i]);
            }
            i += 1;
        }
        proof {
            lemma_full_prefix(t);
        }
        r
    }

    /// Project and non-project minutes of the records that start between
    /// midnight and the last whole second of the day of `date`.
    pub fn calculate_daily_stats(time_records: &[&TimeRecord], date: Timestamp) -> (r: (i64, i64))
        requires
            minutes_fit(deref_records(time_records@)),
            day_in_range(date),
        ensures
            r.0 == sum_where(deref_records(time_records@), project_in(day_start_of(date), day_end_of(date))),
            r.1 == sum_where(
                deref_records(time_records@),
                non_project_in(day_start_of(date), day_end_of(date)),
            ),
    {
        let d = day_number(&date);
        proof {
            vstd::arithmetic::div_mod::lemma_fundamental_div_mod(date.secs as int, 86400);
        }
        let lo = Timestamp { secs: d * SECS_PER_DAY, nanos: 0 };
        let hi = Timestamp { secs: d * SECS_PER_DAY + 86399, nanos: 0 };
        (
            Self::calculate_project_time(time_records, lo, hi),
            Self::calculate_non_project_time(time_records, lo, hi),
        )
    }

    /// Project and non-project minutes of the week of `date`.
    pub fn calculate_weekly_stats(time_records: &[&TimeRecord], date: Timestamp) -> (r: (i64, i64))
        requires
            minutes_fit(deref_records(time_records@)),
            week_in_range(date),
        ensures
            r.0 == sum_where(
                deref_records(time_records@),
                project_in(week_start_of(date), week_end_of(date)),
            ),
            r.1 == sum_where(
                deref_records(time_records@),
                non_project_in(week_start_of(date), week_end_of(date)),
            ),
    {
        let lo = Self::get_week_start(date);
        let hi = Self::get_week_end(date);
        (
            Self::calculate_project_time(time_records, lo, hi),
            Self::calculate_non_project_time(time_records, lo, hi),
        )
    }

    /// Project and non-project minutes of a calendar month, from its first
    /// instant to its last whole second.
    pub fn calculate_monthly_stats(time_records: &[&TimeRecord], year: i32, month: u32) -> (r: (
        i64,
        i64,
    ))
        requires
            minutes_fit(deref_records(time_records@)),
            month_in_range(year, month),
        ensures
            r.0 == sum_where(deref_records(time_records@), project_in(month_first(year, month), month_last(year, month))),
            r.1 == sum_where(deref_records(time_records@), non_project_in(month_first(year, month), month_last(year, month))),
    {
        let (lo, hi) = month_window(year, month);
        (
            Self::calculate_project_time(time_records, lo, hi),
            Self::calculate_non_project_time(time_records, lo, hi),
        )
    }

    /// A duration in minutes as text (see `format_duration_text`).
    pub fn format_duration(minutes: i64) -> (r: String)
        ensures
            r@ == duration_text(minutes as int),
    {
        format_duration_text(minutes)
    }
}

/// A month that chrono holds, and the month after it too.
pub open spec fn month_in_range(year: i32, month: u32) -> bool {
    &&& 1 <= month <= 12
    &&& MIN_YEAR <= year
    &&& (month == 12 ==> year < MAX_YEAR)
    &&& (month < 12 ==> year <= MAX_YEAR)
}

/// The first instant of a month.
pub open spec fn month_first(year: i32, month: u32) -> Timestamp {
    Timestamp { secs: month_start_secs(year as int, month as int) as i64, nanos: 0 }
}

/// The last whole second of a month.
pub open spec fn month_last(year: i32, month: u32) -> Timestamp {
    let (y, m) = if month == 12 { (year + 1, 1int) } else { (year as int, month + 1) };
    Timestamp { secs: (month_start_secs(y, m) - 1) as i64, nanos: 0 }
}

/// The window of a month: its first instant and its last whole second.
pub fn month_window(year: i32, month: u32) -> (r: (Timestamp, Timestamp))
    requires
        month_in_range(year, month),
    ensures
        r.0 == month_first(year, month),
        r.1 == month_last(year, month),
{
    let (ny, nm): (i32, u32) = if month == 12 { (year + 1, 1) } else { (year, month + 1) };
    let first = match month_start(year, month) {
        Some(s) => s,
        None => 0,
    };
    let next = match month_start(ny, nm) {
        Some(s) => s,
        None => 0,
    };
    (Timestamp { secs: first, nanos: 0 }, Timestamp { secs: next - 1, nanos: 0 })
}

} // verus!
