use chrono::{DateTime, Duration, Utc};
use project_tracker::models::{TimeRecord, Timestamp};
use project_tracker::report_generator::ReportGenerator;
use std::collections::HashMap;
use uuid::Uuid;

fn stamp(t: DateTime<Utc>) -> Timestamp {
    Timestamp::new(t.timestamp(), t.timestamp_subsec_nanos())
}

fn create_test_time_record(
    project_id: Option<u128>,
    start_time: DateTime<Utc>,
    duration_minutes: i64,
) -> TimeRecord {
    let end_time = start_time + Duration::minutes(duration_minutes);
    TimeRecord::new(Uuid::new_v4().as_u128(), project_id, stamp(start_time), stamp(end_time))
}

fn wednesday_noon() -> DateTime<Utc> {
    chrono::NaiveDate::from_ymd_opt(2024, 1, 10)
        .unwrap()
        .and_hms_opt(12, 0, 0)
        .unwrap()
        .and_utc()
}

#[test]
fn test_generate_weekly_report() {
    let project_id = Uuid::new_v4().as_u128();
    // A Wednesday, so that all three records fall within its week.
    let base_time = wednesday_noon();

    let record1 = create_test_time_record(Some(project_id), base_time, 120);
    let record2 = create_test_time_record(Some(project_id), base_time + Duration::hours(3), 90);
    let record3 = create_test_time_record(None, base_time + Duration::hours(6), 60);
    let records = vec![&record1, &record2, &record3];

    let mut project_names = HashMap::new();
    project_names.insert(project_id, "测试项目".to_string());

    let report = ReportGenerator::generate_weekly_report(&records, &project_names, stamp(base_time));

    assert_eq!(report.total_project_time_minutes, 210);
    assert_eq!(report.total_non_project_time_minutes, 60);
    assert_eq!(report.project_breakdown.len(), 1);
    assert_eq!(report.project_breakdown[0].project_name, "测试项目");
    assert_eq!(report.project_breakdown[0].total_time_minutes, 210);
    assert_eq!(report.project_breakdown[0].event_count, 2);
}

#[test]
fn test_generate_report_summary() {
    let project_id = Uuid::new_v4().as_u128();
    let base_time = Utc::now();

    let record = create_test_time_record(Some(project_id), base_time, 120);
    let records = vec![&record];

    let mut project_names = HashMap::new();
    project_names.insert(project_id, "测试项目".to_string());

    let report = ReportGenerator::generate_weekly_report(&records, &project_names, stamp(base_time));
    let summary = ReportGenerator::generate_report_summary(&report);

    assert!(summary.contains("每周报表"));
    assert!(summary.contains("项目内时间: 2小时"));
    assert!(summary.contains("项目外时间: 0分钟"));
    assert!(summary.contains("工作效率: 100.00%"));
    assert!(summary.contains("测试项目"));
}

#[test]
fn weekly_report_of_a_fixed_week() {
    let wed = wednesday_noon();
    let r1 = create_test_time_record(Some(9), wed, 120);
    let r2 = create_test_time_record(Some(9), wed + Duration::hours(3), 90);
    let r3 = create_test_time_record(None, wed + Duration::hours(6), 60);
    let records = vec![&r1, &r2, &r3];
    let mut names = HashMap::new();
    names.insert(9u128, "测试项目".to_string());
    let report = ReportGenerator::generate_weekly_report(&records, &names, stamp(wed));
    assert_eq!(report.week_start, stamp(wed - Duration::days(2)));
    assert_eq!(report.week_end, stamp(wed + Duration::days(4)));
    let summary = ReportGenerator::generate_report_summary(&report);
    assert!(summary.starts_with("=== 每周报表 ===\n时间范围: 2024-01-08 至 2024-01-14\n\n"));
    assert!(summary.contains("项目内时间: 3小时30分钟\n项目外时间: 1小时\n工作效率: 77.78%\n\n"));
    assert!(summary.contains("项目时间分解:\n  - 测试项目: 3小时30分钟 (2个事件)\n"));
    assert!(summary.contains("\n报表生成时间: "));
}

#[test]
fn summary_without_project_events() {
    let wed = wednesday_noon();
    let r = create_test_time_record(None, wed, 30);
    let records = vec![&r];
    let report = ReportGenerator::generate_weekly_report(&records, &HashMap::new(), stamp(wed));
    let summary = ReportGenerator::generate_report_summary(&report);
    assert!(summary.contains("工作效率: 0.00%\n\n本周没有项目相关事件\n"));
}

#[test]
fn detailed_report_lists_days_and_ranking() {
    let wed = wednesday_noon();
    let r1 = create_test_time_record(Some(1), wed, 60);
    let r2 = create_test_time_record(Some(2), wed + Duration::days(1), 90);
    let r3 = create_test_time_record(None, wed, 30);
    let records = vec![&r1, &r2, &r3];
    let mut names = HashMap::new();
    names.insert(1u128, "甲".to_string());
    names.insert(2u128, "乙".to_string());
    let text = ReportGenerator::generate_detailed_weekly_report(&records, &names, stamp(wed));
    assert!(text.starts_with("=== 详细每周报表 ===\n时间范围: 2024-01-08 至 2024-01-14\n\n每日统计:\n"));
    assert!(text.contains("  2024-01-08 (Mon): 项目内=0分钟, 项目外=0分钟\n"));
    assert!(text.contains("  2024-01-10 (Wed): 项目内=1小时, 项目外=30分钟\n"));
    assert!(text.contains("  2024-01-11 (Thu): 项目内=1小时30分钟, 项目外=0分钟\n"));
    assert!(text.contains("  2024-01-14 (Sun): 项目内=0分钟, 项目外=0分钟\n"));
    assert!(text.contains("\n总体统计:\n  项目内总时间: 2小时30分钟\n  项目外总时间: 30分钟\n  工作效率: 83.33%\n"));
    assert!(text.contains("\n项目时间排名:\n  1. 乙: 1小时30分钟\n  2. 甲: 1小时\n"));
}

#[test]
fn monthly_summary_text() {
    let wed = wednesday_noon();
    let r1 = create_test_time_record(Some(1), wed, 45);
    let r2 = create_test_time_record(None, wed, 15);
    let records = vec![&r1, &r2];
    let text = ReportGenerator::generate_monthly_summary(&records, &HashMap::new(), 2024, 1);
    assert!(text.starts_with("=== 月度报表 ===\n时间范围: 2024年1月\n\n"));
    assert!(text.contains("项目内时间: 45分钟\n项目外时间: 15分钟\n工作效率: 75.00%\n"));
    assert!(text.contains("\n项目时间分解:\n  - 未知项目: 45分钟 (1个事件)\n"));
}

#[test]
fn efficiency_analysis_advice() {
    let wed = wednesday_noon();
    let r1 = create_test_time_record(Some(1), wed, 20);
    let r2 = create_test_time_record(Some(1), wed, 11);
    let r3 = create_test_time_record(None, wed, 60);
    let records = vec![&r1, &r2, &r3];
    let mut names = HashMap::new();
    names.insert(1u128, "甲".to_string());
    let lo = stamp(wed - Duration::hours(1));
    let hi = stamp(wed + Duration::hours(1));
    let text = ReportGenerator::generate_efficiency_analysis(&records, &names, lo, hi);
    assert!(text.starts_with("=== 效率分析报告 ===\n分析期间: 2024-01-10 至 2024-01-10\n\n时间分配:\n"));
    assert!(text.contains("  项目内时间: 31分钟 (34.1%)\n  项目外时间: 1小时 (65.9%)\n"));
    assert!(text.contains("\n项目效率分析:\n  - 甲: 总时间=31分钟, 平均事件时长=15分钟\n"));
    assert!(text.contains("\n改进建议:\n  - 建议减少项目外活动，增加项目内工作时间\n  - 项目外时间过多，建议优化时间分配\n"));

    let only = vec![&r1];
    let high = ReportGenerator::generate_efficiency_analysis(&only, &names, lo, hi);
    assert!(high.contains("(100.0%)"));
    assert!(high.ends_with("\n改进建议:\n  - 工作效率很高，注意保持工作生活平衡\n"));

    let r4 = create_test_time_record(None, wed, 10);
    let mixed = vec![&r1, &r4];
    let good = ReportGenerator::generate_efficiency_analysis(&mixed, &names, lo, hi);
    assert!(good.ends_with("\n改进建议:\n  - 工作效率良好，继续保持\n"));
}
