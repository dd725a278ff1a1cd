use chrono::{DateTime, Datelike, Duration, Utc, Weekday};
use project_tracker::models::{TimeRecord, Timestamp};
use project_tracker::time_calculator::TimeCalculator;
use std::collections::HashMap;
use uuid::Uuid;

fn stamp(t: DateTime<Utc>) -> Timestamp {
    Timestamp::new(t.timestamp(), t.timestamp_subsec_nanos())
}

fn date_of(t: Timestamp) -> DateTime<Utc> {
    DateTime::from_timestamp(t.secs, t.nanos).unwrap()
}

fn create_test_time_record(
    project_id: Option<u128>,
    start_time: DateTime<Utc>,
    duration_minutes: i64,
) -> TimeRecord {
    let end_time = start_time + Duration::minutes(duration_minutes);
    TimeRecord::new(Uuid::new_v4().as_u128(), project_id, stamp(start_time), stamp(end_time))
}

#[test]
fn test_calculate_project_time() {
    let project_id = Uuid::new_v4().as_u128();
    let base_time = Utc::now();

    let record1 = create_test_time_record(Some(project_id), base_time, 60);
    let record2 = create_test_time_record(Some(project_id), base_time + Duration::hours(2), 30);
    let record3 = create_test_time_record(None, base_time, 45);
    let records = vec![&record1, &record2, &record3];

    let project_time = TimeCalculator::calculate_project_time(
        &records,
        stamp(base_time - Duration::hours(1)),
        stamp(base_time + Duration::hours(4)),
    );

    assert_eq!(project_time, 90);
}

#[test]
fn test_calculate_non_project_time() {
    let project_id = Uuid::new_v4().as_u128();
    let base_time = Utc::now();

    let record1 = create_test_time_record(Some(project_id), base_time, 60);
    let record2 = create_test_time_record(None, base_time + Duration::hours(2), 45);
    let record3 = create_test_time_record(None, base_time + Duration::hours(3), 30);
    let records = vec![&record1, &record2, &record3];

    let non_project_time = TimeCalculator::calculate_non_project_time(
        &records,
        stamp(base_time - Duration::hours(1)),
        stamp(base_time + Duration::hours(4)),
    );

    assert_eq!(non_project_time, 75);
}

#[test]
fn test_format_duration() {
    assert_eq!(TimeCalculator::format_duration(30), "30分钟");
    assert_eq!(TimeCalculator::format_duration(90), "1小时30分钟");
    assert_eq!(TimeCalculator::format_duration(120), "2小时");
    assert_eq!(TimeCalculator::format_duration(1500), "1天1小时");
    assert_eq!(TimeCalculator::format_duration(2880), "2天");
}

#[test]
fn format_duration_edges() {
    assert_eq!(TimeCalculator::format_duration(0), "0分钟");
    assert_eq!(TimeCalculator::format_duration(59), "59分钟");
    assert_eq!(TimeCalculator::format_duration(60), "1小时");
    assert_eq!(TimeCalculator::format_duration(1439), "23小时59分钟");
    assert_eq!(TimeCalculator::format_duration(1441), "1天1分钟");
    assert_eq!(TimeCalculator::format_duration(1501), "1天1小时1分钟");
    assert_eq!(TimeCalculator::format_duration(-5), "-5分钟");
}

#[test]
fn test_week_boundaries() {
    let test_date = chrono::NaiveDate::from_ymd_opt(2024, 1, 10)
        .unwrap()
        .and_hms_opt(12, 0, 0)
        .unwrap()
        .and_utc();

    let week_start = date_of(TimeCalculator::get_week_start(stamp(test_date)));
    let week_end = date_of(TimeCalculator::get_week_end(stamp(test_date)));

    assert_eq!(week_start.date_naive().day(), 8);
    assert_eq!(week_start.weekday(), Weekday::Mon);

    assert_eq!(week_end.date_naive().day(), 14);
    assert_eq!(week_end.weekday(), Weekday::Sun);
}

#[test]
fn week_of_a_sunday_before_the_epoch() {
    let sunday = chrono::NaiveDate::from_ymd_opt(1969, 12, 28)
        .unwrap()
        .and_hms_opt(8, 30, 0)
        .unwrap()
        .and_utc();
    let start = date_of(TimeCalculator::get_week_start(stamp(sunday)));
    let end = date_of(TimeCalculator::get_week_end(stamp(sunday)));
    assert_eq!(start.weekday(), Weekday::Mon);
    assert_eq!(start.date_naive().day(), 22);
    assert_eq!(end, sunday);
    assert_eq!(start.time(), sunday.time());
}

#[test]
fn project_plus_non_project_is_window_total() {
    let base = Utc::now();
    let r1 = create_test_time_record(Some(1), base, 40);
    let r2 = create_test_time_record(None, base + Duration::minutes(50), 25);
    let r3 = create_test_time_record(Some(2), base + Duration::hours(5), 10);
    let records = vec![&r1, &r2, &r3];
    let lo = stamp(base);
    let hi = stamp(base + Duration::hours(1));
    let p = TimeCalculator::calculate_project_time(&records, lo, hi);
    let n = TimeCalculator::calculate_non_project_time(&records, lo, hi);
    assert_eq!((p, n), (40, 25));
    assert_eq!(p + n, 65);
}

#[test]
fn project_total_with_open_bounds() {
    let base = Utc::now();
    let r1 = create_test_time_record(Some(1), base, 40);
    let r2 = create_test_time_record(Some(1), base + Duration::hours(3), 20);
    let r3 = create_test_time_record(Some(2), base, 10);
    let records = vec![&r1, &r2, &r3];
    assert_eq!(TimeCalculator::calculate_project_total_time(&records, 1, None, None), 60);
    assert_eq!(
        TimeCalculator::calculate_project_total_time(&records, 1, Some(stamp(base + Duration::hours(1))), None),
        20
    );
    assert_eq!(
        TimeCalculator::calculate_project_total_time(&records, 1, None, Some(stamp(base))),
        40
    );
}

#[test]
fn breakdown_and_ranking() {
    let base = Utc::now();
    let r1 = create_test_time_record(Some(1), base, 30);
    let r2 = create_test_time_record(Some(2), base, 90);
    let r3 = create_test_time_record(Some(1), base, 15);
    let r4 = create_test_time_record(None, base, 500);
    let r5 = create_test_time_record(Some(3), base, 45);
    let records = vec![&r1, &r2, &r3, &r4, &r5];
    let mut names = HashMap::new();
    names.insert(1u128, "甲".to_string());
    names.insert(2u128, "乙".to_string());
    let lo = stamp(base);
    let hi = stamp(base + Duration::hours(1));
    let mut b = TimeCalculator::generate_project_breakdown(&records, &names, lo, hi);
    b.sort_by_key(|e| e.project_id);
    assert_eq!(b.len(), 3);
    assert_eq!((b[0].project_name.as_str(), b[0].total_time_minutes, b[0].event_count), ("甲", 45, 2));
    assert_eq!((b[1].project_name.as_str(), b[1].total_time_minutes, b[1].event_count), ("乙", 90, 1));
    assert_eq!((b[2].project_name.as_str(), b[2].total_time_minutes, b[2].event_count), ("未知项目", 45, 1));
    let ranking = TimeCalculator::get_project_ranking(&records, &names, lo, hi);
    assert_eq!(ranking.len(), 3);
    assert_eq!(ranking[0], ("乙".to_string(), 90));
    assert_eq!(ranking[1].1, 45);
    assert_eq!(ranking[2].1, 45);
}

#[test]
fn daily_weekly_and_monthly_stats() {
    let day = chrono::NaiveDate::from_ymd_opt(2024, 2, 29).unwrap();
    let at = |h: u32, m: u32| day.and_hms_opt(h, m, 0).unwrap().and_utc();
    let r1 = create_test_time_record(Some(1), at(0, 0), 30);
    let r2 = create_test_time_record(None, at(23, 59), 5);
    let r3 = create_test_time_record(Some(1), at(12, 0) + Duration::days(1), 60);
    let r4 = create_test_time_record(Some(1), at(0, 0) - Duration::seconds(1), 7);
    let records = vec![&r1, &r2, &r3, &r4];
    assert_eq!(TimeCalculator::calculate_daily_stats(&records, stamp(at(9, 0))), (30, 5));
    assert_eq!(TimeCalculator::calculate_weekly_stats(&records, stamp(at(9, 0))), (97, 5));
    assert_eq!(TimeCalculator::calculate_monthly_stats(&records, 2024, 2), (37, 5));
    assert_eq!(TimeCalculator::calculate_monthly_stats(&records, 2024, 3), (60, 0));
}

#[test]
fn monthly_stats_roll_over_december() {
    let t = chrono::NaiveDate::from_ymd_opt(2023, 12, 31)
        .unwrap()
        .and_hms_opt(23, 59, 59)
        .unwrap()
        .and_utc();
    let r1 = create_test_time_record(Some(1), t, 10);
    let r2 = create_test_time_record(None, t + Duration::seconds(1), 20);
    let records = vec![&r1, &r2];
    assert_eq!(TimeCalculator::calculate_monthly_stats(&records, 2023, 12), (10, 0));
    assert_eq!(TimeCalculator::calculate_monthly_stats(&records, 2024, 1), (0, 20));
}

#[test]
fn week_records_pick_the_week() {
    let wed = chrono::NaiveDate::from_ymd_opt(2024, 1, 10)
        .unwrap()
        .and_hms_opt(12, 0, 0)
        .unwrap()
        .and_utc();
    let r1 = create_test_time_record(Some(1), wed - Duration::days(2), 10);
    let r2 = create_test_time_record(Some(1), wed + Duration::days(5), 10);
    let r3 = create_test_time_record(Some(1), wed - Duration::days(3), 10);
    let records = vec![&r1, &r2, &r3];
    let picked = TimeCalculator::get_week_time_records(&records, stamp(wed));
    assert_eq!(picked.len(), 1);
    assert_eq!(picked[0].id, r1.id);
}
