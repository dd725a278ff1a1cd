//! Weekly, monthly and efficiency reports: the figures and their text.
use vstd::prelude::*;

use crate::models::{ProjectTimeBreakdown, TimeRecord, Timestamp, WeeklyReport};
use crate::platform::{format_time, known_pattern, now, time_text};
use crate::text::{duration_text, int_text, percent_text, push_int, push_percent};
use crate::time_calculator::{
    day_end_of, day_start_of, deref_records, is_breakdown, month_first, month_in_range, month_last,
    minutes_fit, non_project_in, project_in, rank_breakdown, ranked, row_of, sum_where,
    week_end_of, week_in_range, week_start_of, TimeCalculator, format_duration_text,
};
use std::collections::HashMap;

verus! {

/// An instant's calendar date, as `2024-01-08`.
pub open spec fn date_text(t: Timestamp) -> Seq<char> {
    time_text(t.secs as int, t.nanos as int, "%Y-%m-%d"@)
}

/// An instant's date and time of day, as `2024-01-08 12:00:00`.
pub open spec fn clock_text(t: Timestamp) -> Seq<char> {
    time_text(t.secs as int, t.nanos as int, "%Y-%m-%d %H:%M:%S"@)
}

/// An instant's date and weekday, as `2024-01-08 (Mon)`.
pub open spec fn day_label(t: Timestamp) -> Seq<char> {
    time_text(t.secs as int, t.nanos as int, "%Y-%m-%d (%a)"@)
}

/// One line of a breakdown: name, time and number of events.
pub open spec fn breakdown_line(e: ProjectTimeBreakdown) -> Seq<char> {
    "  - "@ + e.project_name@ + ": "@ + duration_text(e.total_time_minutes as int) + " ("@
        + int_text(e.event_count as int) + "个事件)\n"@
}

/// The lines of a breakdown, in its order.
pub open spec fn breakdown_lines(b: Seq<ProjectTimeBreakdown>) -> Seq<char>
    decreases b.len(),
{
    if b.len() == 0 {
        Seq::empty()
    } else {
        breakdown_lines(b.drop_last()) + breakdown_line(b.last())
    }
}

/// One line of a ranking, numbered from one.
pub open spec fn ranking_line(i: int, row: (String, i64)) -> Seq<char> {
    "  "@ + int_text(i + 1) + ". "@ + row.0@ + ": "@ + duration_text(row.1 as int) + "\n"@
}

/// The lines of a ranking, in its order.
pub open spec fn ranking_lines(rows: Seq<(String, i64)>) -> Seq<char>
    decreases rows.len(),
{
    if rows.len() == 0 {
        Seq::empty()
    } else {
        ranking_lines(rows.drop_last()) + ranking_line(rows.len() - 1, rows.last())
    }
}

/// The `k`-th day of the week that starts at `ws`.
pub open spec fn nth_day(ws: Timestamp, k: int) -> Timestamp {
    Timestamp { secs: (ws.secs + k * 86400) as i64, nanos: ws.nanos }
}

/// One line of the daily figures.
pub open spec fn day_line(t: Seq<TimeRecord>, d: Timestamp) -> Seq<char> {
    "  "@ + day_label(d) + ": 项目内="@ + duration_text(
        sum_where(t, project_in(day_start_of(d), day_end_of(d))),
    ) + ", 项目外="@ + duration_text(sum_where(t, non_project_in(day_start_of(d), day_end_of(d))))
        + "\n"@
}

/// The lines of the first `n` days of the week that starts at `ws`.
pub open spec fn day_lines(t: Seq<TimeRecord>, ws: Timestamp, n: nat) -> Seq<char>
    decreases n,
{
    if n == 0 {
        Seq::empty()
    } else {
        day_lines(t, ws, (n - 1) as nat) + day_line(t, nth_day(ws, n - 1))
    }
}

/// The headed breakdown section, or `empty` where there is no entry.
pub open spec fn breakdown_section(
    b: Seq<ProjectTimeBreakdown>,
    head: Seq<char>,
    empty: Seq<char>,
) -> Seq<char> {
    if b.len() > 0 {
        head + breakdown_lines(b)
    } else {
        empty
    }
}

/// The text of a weekly report.
pub open spec fn summary_text(r: WeeklyReport) -> Seq<char> {
    let p = r.total_project_time_minutes as int;
    let np = r.total_non_project_time_minutes as int;
    "=== 每周报表 ===\n"@ + "时间范围: "@ + date_text(r.week_start) + " 至 "@ + date_text(r.week_end)
        + "\n\n"@ + "项目内时间: "@ + duration_text(p) + "\n"@ + "项目外时间: "@ + duration_text(np)
        + "\n"@ + "工作效率: "@ + percent_text(p, p + np, 2) + "%\n\n"@ + breakdown_section(
        r.project_breakdown@,
        "项目时间分解:\n"@,
        "本周没有项目相关事件\n"@,
    ) + "\n报表生成时间: "@ + clock_text(r.generated_at) + "\n"@
}

/// The text of a detailed weekly report over the records `t`, with the
/// breakdown `b`, the ranking `rows` and the time `g` it was made.
pub open spec fn detailed_text(
    t: Seq<TimeRecord>,
    date: Timestamp,
    b: Seq<ProjectTimeBreakdown>,
    rows: Seq<(String, i64)>,
    g: Timestamp,
) -> Seq<char> {
    let ws = week_start_of(date);
    let we = week_end_of(date);
    let p = sum_where(t, project_in(ws, we));
    let np = sum_where(t, non_project_in(ws, we));
    "=== 详细每周报表 ===\n"@ + "时间范围: "@ + date_text(ws) + " 至 "@ + date_text(we) + "\n\n"@
        + "每日统计:\n"@ + day_lines(t, ws, 7) + "\n总体统计:\n"@ + "  项目内总时间: "@ + duration_text(p)
        + "\n"@ + "  项目外总时间: "@ + duration_text(np) + "\n"@ + "  工作效率: "@ + percent_text(
        p,
        p + np,
        2,
    ) + "%\n"@ + breakdown_section(b, "\n项目时间分解:\n"@, Seq::empty()) + (if rows.len() > 0 {
        "\n项目时间排名:\n"@ + ranking_lines(rows)
    } else {
        Seq::empty()
    }) + "\n报表生成时间: "@ + clock_text(g) + "\n"@
}

/// The text of a monthly report with the breakdown `b`.
pub open spec fn monthly_text(
    t: Seq<TimeRecord>,
    year: i32,
    month: u32,
    b: Seq<ProjectTimeBreakdown>,
) -> Seq<char> {
    let lo = month_first(year, month);
    let hi = month_last(year, month);
    let p = sum_where(t, project_in(lo, hi));
    let np = sum_where(t, non_project_in(lo, hi));
    "=== 月度报表 ===\n"@ + "时间范围: "@ + int_text(year as int) + "年"@ + int_text(month as int)
        + "月\n\n"@ + "项目内时间: "@ + duration_text(p) + "\n"@ + "项目外时间: "@ + duration_text(np)
        + "\n"@ + "工作效率: "@ + percent_text(p, p + np, 2) + "%\n"@ + breakdown_section(
        b,
        "\n项目时间分解:\n"@,
        Seq::empty(),
    )
}

/// `a / b` rounded toward zero, for `b > 0`.
pub open spec fn trunc_div(a: int, b: int) -> int {
    if a >= 0 {
        a / b
    } else {
        -((-a) / b)
    }
}

/// One line of the per-project part of an efficiency analysis.
pub open spec fn efficiency_line(e: ProjectTimeBreakdown) -> Seq<char> {
    let avg = if e.event_count > 0 {
        trunc_div(e.total_time_minutes as int, e.event_count as int)
    } else {
        0
    };
    "  - "@ + e.project_name@ + ": 总时间="@ + duration_text(e.total_time_minutes as int)
        + ", 平均事件时长="@ + duration_text(avg) + "\n"@
}

/// The per-project lines of an efficiency analysis.
pub open spec fn efficiency_lines(b: Seq<ProjectTimeBreakdown>) -> Seq<char>
    decreases b.len(),
{
    if b.len() == 0 {
        Seq::empty()
    } else {
        efficiency_lines(b.drop_last()) + efficiency_line(b.last())
    }
}

/// The advice for a project share `p` of `total` minutes: below half, cut
/// non-project time; above nine tenths, keep a balance; else carry on.
pub open spec fn advice_text(p: int, total: int) -> Seq<char> {
    if total <= 0 || 2 * p < total {
        "  - 建议减少项目外活动，增加项目内工作时间\n"@
    } else if 10 * p > 9 * total {
        "  - 工作效率很高，注意保持工作生活平衡\n"@
    } else {
        "  - 工作效率良好，继续保持\n"@
    }
}

/// The text of an efficiency analysis of `[lo, hi]` with the breakdown `b`.
pub open spec fn efficiency_text(
    t: Seq<TimeRecord>,
    lo: Timestamp,
    hi: Timestamp,
    b: Seq<ProjectTimeBreakdown>,
) -> Seq<char> {
    let p = sum_where(t, project_in(lo, hi));
    let np = sum_where(t, non_project_in(lo, hi));
    "=== 效率分析报告 ===\n"@ + "分析期间: "@ + date_text(lo) + " 至 "@ + date_text(hi) + "\n\n"@
        + "时间分配:\n"@ + "  项目内时间: "@ + duration_text(p) + " ("@ + percent_text(p, p + np, 1)
        + "%)\n"@ + "  项目外时间: "@ + duration_text(np) + " ("@ + percent_text(np, p + np, 1)
        + "%)\n"@ + (if b.len() > 0 {
        "\n项目效率分析:\n"@ + efficiency_lines(b)
    } else {
        Seq::empty()
    }) + "\n改进建议:\n"@ + advice_text(p, p + np) + if np > p {
        "  - 项目外时间过多，建议优化时间分配\n"@
    } else {
        Seq::empty()
    }
}

fn push_duration(s: &mut String, minutes: i64)
    ensures
        final(s)@ == old(s)@ + duration_text(minutes as int),
{
    let d = format_duration_text(minutes);
    s.append(d.as_str());
}

fn push_time(s: &mut String, t: &Timestamp, pattern: &str)
    requires
        known_pattern(pattern@),
    ensures
        final(s)@ == old(s)@ + time_text(t.secs as int, t.nanos as int, pattern@),
{
    let d = format_time(t, pattern);
    s.append(d.as_str());
}

fn push_breakdown_lines(s: &mut String, b: &Vec<ProjectTimeBreakdown>)
    ensures
        final(s)@ == old(s)@ + breakdown_lines(b@),
{
    let ghost start = s@;
    let mut i: usize = 0;
    assert(b@.subrange(0, 0) =~= Seq::<ProjectTimeBreakdown>::empty());
    assert(s@ =~= start + breakdown_lines(b@.subrange(0, 0)));
    while i < b.len()
        invariant
            0 <= i <= b@.len(),
            s@ == start + breakdown_lines(b@.subrange(0, i as int)),
        decreases b@.len() - i,
    {
        let e = &b[i];
        s.append("  - ");
        s.append(e.project_name.as_str());
        s.append(": ");
        push_duration(s, e.total_time_minutes);
        s.append(" (");
        push_int(s, e.event_count as i128);
        s.append("个事件)\n");
        proof {
            assert(b@.subrange(0, i + 1).drop_last() =~= b@.subrange(0, i as int));
            assert(s@ =~= start + breakdown_lines(b@.subrange(0, i + 1)));
        }
        i += 1;
    }
    assert(b@.subrange(0, b@.len() as int) =~= b@);
}

fn push_ranking_lines(s: &mut String, rows: &Vec<(String, i64)>)
    ensures
        final(s)@ == old(s)@ + ranking_lines(rows@),
{
    let ghost start = s@;
    let mut i: usize = 0;
    assert(rows@.subrange(0, 0) =~= Seq::<(String, i64)>::empty());
    assert(s@ =~= start + ranking_lines(rows@.subrange(0, 0)));
    while i < rows.len()
        invariant
            0 <= i <= rows@.len(),
            s@ == start + ranking_lines(rows@.subrange(0, i as int)),
        decreases rows@.len() - i,
    {
        s.append("  ");
        push_int(s, i as i128 + 1);
        s.append(". ");
        s.append(rows[i].0.as_str());
        s.append(": ");
        push_duration(s, rows[i].1);
        s.append("\n");
        proof {
            assert(rows@.subrange(0, i + 1).drop_last() =~= rows@.subrange(0, i as int));
            assert(s@ =~= start + ranking_lines(rows@.subrange(0, i + 1)));
        }
        i += 1;
    }
    assert(rows@.subrange(0, rows@.len() as int) =~= rows@);
}

/// Minutes per event, rounded toward zero; zero where there is no event.
fn mean_minutes(total: i64, count: i32) -> (r: i64)
    ensures
        r == if count > 0 {
            trunc_div(total as int, count as int)
        } else {
            0
        },
{
    if count > 0 {
        let c = count as i64;
        if total >= 0 {
            total / c
        } else {
            let m: u64 = if total == i64::MIN {
                (i64::MAX as u64) + 1
            } else {
                (-total) as u64
            };
            proof {
                vstd::arithmetic::div_mod::lemma_div_is_ordered_by_denominator(m as int, 1, c as int);
            }
            let q: i128 = (m / (c as u64)) as i128;
            (-q) as i64
        }
    } else {
        0
    }
}

fn push_efficiency_lines(s: &mut String, b: &Vec<ProjectTimeBreakdown>)
    ensures
        final(s)@ == old(s)@ + efficiency_lines(b@),
{
    let ghost start = s@;
    let mut i: usize = 0;
    assert(b@.subrange(0, 0) =~= Seq::<ProjectTimeBreakdown>::empty());
    assert(s@ =~= start + efficiency_lines(b@.subrange(0, 0)));
    while i < b.len()
        invariant
            0 <= i <= b@.len(),
            s@ == start + efficiency_lines(b@.subrange(0, i as int)),
        decreases b@.len() - i,
    {
        let e = &b[i];
        let avg = mean_minutes(e.total_time_minutes, e.event_count);
        s.append("  - ");
        s.append(e.project_name.as_str());
        s.append(": 总时间=");
        push_duration(s, e.total_time_minutes);
        s.append(", 平均事件时长=");
        push_duration(s, avg);
        s.append("\n");
        proof {
            assert(b@.subrange(0, i + 1).drop_last() =~= b@.subrange(0, i as int));
            assert(s@ =~= start + efficiency_lines(b@.subrange(0, i + 1)));
        }
        i += 1;
    }
    assert(b@.subrange(0, b@.len() as int) =~= b@);
}

/// Builds reports from time records.
pub struct ReportGenerator;

impl ReportGenerator {
    /// The report of the Monday-to-Sunday week of `report_date`: its project
    /// and non-project minutes and its per-project breakdown.
    pub fn generate_weekly_report(
        time_records: &[&TimeRecord],
        project_names: &HashMap<u128, String>,
        report_date: Timestamp,
    ) -> (r: WeeklyReport)
        requires
            minutes_fit(deref_records(time_records@)),
            time_records@.len() <= i32::MAX,
            week_in_range(report_date),
        ensures
            r.week_start == week_start_of(report_date),
            r.week_end == week_end_of(report_date),
            r.total_project_time_minutes == sum_where(
                deref_records(time_records@),
                project_in(r.week_start, r.week_end),
            ),
            r.total_non_project_time_minutes == sum_where(
                deref_records(time_records@),
                non_project_in(r.week_start, r.week_end),
            ),
            is_breakdown(
                r.project_breakdown@,
                deref_records(time_records@),
                project_names@,
                r.week_start,
                r.week_end,
            ),
    {
        let week_start = TimeCalculator::get_week_start(report_date);
        let week_end = TimeCalculator::get_week_end(report_date);
        let total_project_time = TimeCalculator::calculate_project_time(
            time_records,
            week_start,
            week_end,
        );
        let total_non_project_time = TimeCalculator::calculate_non_project_time(
            time_records,
            week_start,
            week_end,
        );
        let project_breakdown = TimeCalculator::generate_project_breakdown(
            time_records,
            project_names,
            week_start,
            week_end,
        );
        let mut report = WeeklyReport::new(week_start, week_end);
        report.total_project_time_minutes = total_project_time;
        report.total_non_project_time_minutes = total_non_project_time;
        report.project_breakdown = project_breakdown;
        report
    }

    /// The report as text: its week, its totals, the project share to two
    /// decimals, one line per project, and when it was made.
    pub fn generate_report_summary(report: &WeeklyReport) -> (r: String)
        ensures
            r@ == summary_text(*report),
    {
        let p = report.total_project_time_minutes;
        let np = report.total_non_project_time_minutes;
        let mut s = String::from_str("=== 每周报表 ===\n");
        s.append("时间范围: ");
        push_time(&mut s, &report.week_start, "%Y-%m-%d");
        s.append(" 至 ");
        push_time(&mut s, &report.week_end, "%Y-%m-%d");
        s.append("\n\n");
        s.append("项目内时间: ");
        push_duration(&mut s, p);
        s.append("\n");
        s.append("项目外时间: ");
        push_duration(&mut s, np);
        s.append("\n");
        s.append("工作效率: ");
        push_percent(&mut s, p, p as i128 + np as i128, 2);
        s.append("%\n\n");
        let ghost before = s@;
        if report.project_breakdown.len() > 0 {
            s.append("项目时间分解:\n");
            push_breakdown_lines(&mut s, &report.project_breakdown);
        } else {
            s.append("本周没有项目相关事件\n");
        }
        assert(s@ =~= before + breakdown_section(
            report.project_breakdown@,
            "项目时间分解:\n"@,
            "本周没有项目相关事件\n"@,
        ));
        s.append("\n报表生成时间: ");
        push_time(&mut s, &report.generated_at, "%Y-%m-%d %H:%M:%S");
        s.append("\n");
        s
    }

    /// The week of `report_date` as text, day by day, then its totals, its
    /// breakdown and its ranking.
    pub fn generate_detailed_weekly_report(
        time_records: &[&TimeRecord],
        project_names: &HashMap<u128, String>,
        report_date: Timestamp,
    ) -> (r: String)
        requires
            minutes_fit(deref_records(time_records@)),
            time_records@.len() <= i32::MAX,
            week_in_range(report_date),
        ensures
            exists|b: Seq<ProjectTimeBreakdown>, rows: Seq<(String, i64)>, g: Timestamp|
                is_breakdown(
                    b,
                    deref_records(time_records@),
                    project_names@,
                    week_start_of(report_date),
                    week_end_of(report_date),
                ) && ranked(rows) && rows.to_multiset() == b.map_values(
                    |e: ProjectTimeBreakdown| row_of(e),
                ).to_multiset() && r@ == detailed_text(
                    deref_records(time_records@),
                    report_date,
                    b,
                    rows,
                    g,
                ),
    {
        let ghost t = deref_records(time_records@);
        let week_start = TimeCalculator::get_week_start(report_date);
        let week_end = TimeCalculator::get_week_end(report_date);
        let mut s = String::from_str("=== 详细每周报表 ===\n");
        s.append("时间范围: ");
        push_time(&mut s, &week_start, "%Y-%m-%d");
        s.append(" 至 ");
        push_time(&mut s, &week_end, "%Y-%m-%d");
        s.append("\n\n");
        s.append("每日统计:\n");
        let ghost head = s@;
        let mut k: i64 = 0;
        assert(s@ =~= head + day_lines(t, week_start, 0));
        while k < 7
            invariant
                0 <= k <= 7,
                t == deref_records(time_records@),
                minutes_fit(t),
                week_in_range(report_date),
                week_start == week_start_of(report_date),
                s@ == head + day_lines(t, week_start, k as nat),
            decreases 7 - k,
        {
            let day = Timestamp { secs: week_start.secs + k * 86400, nanos: week_start.nanos };
            assert(day == nth_day(week_start, k as int));
            let (dp, dnp) = TimeCalculator::calculate_daily_stats(time_records, day);
            s.append("  ");
            push_time(&mut s, &day, "%Y-%m-%d (%a)");
            s.append(": 项目内=");
            push_duration(&mut s, dp);
            s.append(", 项目外=");
            push_duration(&mut s, dnp);
            s.append("\n");
            assert(s@ =~= head + day_lines(t, week_start, (k + 1) as nat));
            k += 1;
        }
        let p = TimeCalculator::calculate_project_time(time_records, week_start, week_end);
        let np = TimeCalculator::calculate_non_project_time(time_records, week_start, week_end);
        s.append("\n总体统计:\n");
        s.append("  项目内总时间: ");
        push_duration(&mut s, p);
        s.append("\n");
        s.append("  项目外总时间: ");
        push_duration(&mut s, np);
        s.append("\n");
        s.append("  工作效率: ");
        push_percent(&mut s, p, p as i128 + np as i128, 2);
        s.append("%\n");
        let b = TimeCalculator::generate_project_breakdown(
            time_records,
            project_names,
            week_start,
            week_end,
        );
        let ghost mid = s@;
        if b.len() > 0 {
            s.append("\n项目时间分解:\n");
            push_breakdown_lines(&mut s, &b);
        }
        assert(s@ =~= mid + breakdown_section(b@, "\n项目时间分解:\n"@, Seq::empty()));
        let rows = rank_breakdown(&b);
        let ghost mid2 = s@;
        if rows.len() > 0 {
            s.append("\n项目时间排名:\n");
            push_ranking_lines(&mut s, &rows);
        }
        assert(s@ =~= mid2 + (if rows@.len() > 0 {
            "\n项目时间排名:\n"@ + ranking_lines(rows@)
        } else {
            Seq::empty()
        }));
        let g = now();
        s.append("\n报表生成时间: ");
        push_time(&mut s, &g, "%Y-%m-%d %H:%M:%S");
        s.append("\n");
        assert(s@ =~= detailed_text(t, report_date, b@, rows@, g));
        s
    }

    /// A calendar month as text: its totals, the project share and its
    /// breakdown.
    pub fn generate_monthly_summary(
        time_records: &[&TimeRecord],
        project_names: &HashMap<u128, String>,
        year: i32,
        month: u32,
    ) -> (r: String)
        requires
            minutes_fit(deref_records(time_records@)),
            time_records@.len() <= i32::MAX,
            month_in_range(year, month),
        ensures
            exists|b: Seq<ProjectTimeBreakdown>|
                is_breakdown(
                    b,
                    deref_records(time_records@),
                    project_names@,
                    month_first(year, month),
                    month_last(year, month),
                ) && r@ == monthly_text(deref_records(time_records@), year, month, b),
    {
        let (p, np) = TimeCalculator::calculate_monthly_stats(time_records, year, month);
        let mut s = String::from_str("=== 月度报表 ===\n");
        s.append("时间范围: ");
        push_int(&mut s, year as i128);
        s.append("年");
        push_int(&mut s, month as i128);
        s.append("月\n\n");
        s.append("项目内时间: ");
        push_duration(&mut s, p);
        s.append("\n");
        s.append("项目外时间: ");
        push_duration(&mut s, np);
        s.append("\n");
        s.append("工作效率: ");
        push_percent(&mut s, p, p as i128 + np as i128, 2);
        s.append("%\n");
        let (lo, hi) = crate::time_calculator::month_window(year, month);
        let b = TimeCalculator::generate_project_breakdown(time_records, project_names, lo, hi);
        let ghost mid = s@;
        if b.len() > 0 {
            s.append("\n项目时间分解:\n");
            push_breakdown_lines(&mut s, &b);
        }
        assert(s@ =~= mid + breakdown_section(b@, "\n项目时间分解:\n"@, Seq::empty()));
        assert(s@ =~= monthly_text(deref_records(time_records@), year, month, b@));
        s
    }

    /// An analysis of `[start_date, end_date]`: the project and non-project
    /// shares to one decimal, each project's total and mean event length, and
    /// advice by the project share.
    pub fn generate_efficiency_analysis(
        time_records: &[&TimeRecord],
        project_names: &HashMap<u128, String>,
        start_date: Timestamp,
        end_date: Timestamp,
    ) -> (r: String)
        requires
            minutes_fit(deref_records(time_records@)),
            time_records@.len() <= i32::MAX,
        ensures
            exists|b: Seq<ProjectTimeBreakdown>|
                is_breakdown(b, deref_records(time_records@), project_names@, start_date, end_date)
                    && r@ == efficiency_text(deref_records(time_records@), start_date, end_date, b),
    {
        let mut s = String::from_str("=== 效率分析报告 ===\n");
        s.append("分析期间: ");
        push_time(&mut s, &start_date, "%Y-%m-%d");
        s.append(" 至 ");
        push_time(&mut s, &end_date, "%Y-%m-%d");
        s.append("\n\n");
        let p = TimeCalculator::calculate_project_time(time_records, start_date, end_date);
        let np = TimeCalculator::calculate_non_project_time(time_records, start_date, end_date);
        let total: i128 = p as i128 + np as i128;
        s.append("时间分配:\n");
        s.append("  项目内时间: ");
        push_duration(&mut s, p);
        s.append(" (");
        push_percent(&mut s, p, total, 1);
        s.append("%)\n");
        s.append("  项目外时间: ");
        push_duration(&mut s, np);
        s.append(" (");
        push_percent(&mut s, np, total, 1);
        s.append("%)\n");
        let b = TimeCalculator::generate_project_breakdown(
            time_records,
            project_names,
            start_date,
            end_date,
        );
        let ghost mid = s@;
        if b.len() > 0 {
            s.append("\n项目效率分析:\n");
            push_efficiency_lines(&mut s, &b);
        }
        assert(s@ =~= mid + (if b@.len() > 0 {
            "\n项目效率分析:\n"@ + efficiency_lines(b@)
        } else {
            Seq::empty()
        }));
        s.append("\n改进建议:\n");
        let pw = p as i128;
        if total <= 0 || 2 * pw < total {
            s.append("  - 建议减少项目外活动，增加项目内工作时间\n");
        } else if 10 * pw > 9 * total {
            s.append("  - 工作效率很高，注意保持工作生活平衡\n");
        } else {
            s.append("  - 工作效率良好，继续保持\n");
        }
        if np > p {
            s.append("  - 项目外时间过多，建议优化时间分配\n");
        }
        assert(s@ =~= efficiency_text(deref_records(time_records@), start_date, end_date, b@));
        s
    }
}

} // verus!
