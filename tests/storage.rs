use project_tracker::event_manager::EventManager;
use project_tracker::models::{Event, EventType, Project, Timestamp, TrackerError};
use project_tracker::project_manager::ProjectManager;
use project_tracker::storage::{AppData, Storage};

#[test]
fn test_storage_creation() {
    let data_dir = "/tmp/project_tracker_data".to_string();

    let storage = Storage::new(data_dir.clone());
    assert_eq!(*storage.data_dir(), data_dir);
}

#[test]
fn file_paths() {
    let storage = Storage::new("./data".to_string());
    assert_eq!(storage.get_data_file_path(), "./data/app_data.json");
    assert_eq!(storage.get_backup_file_path("20240110_120000"), "./data/backup_20240110_120000.json");
}

#[test]
fn test_data_integrity_check() {
    let storage = Storage::new("./data".to_string());
    let mut app_data = AppData::new();

    app_data.projects.push(Project::new("测试项目".to_string(), None));
    let project_id = app_data.projects[0].id;

    app_data.events.push(Event::new(
        "测试事件".to_string(),
        None,
        EventType::ProjectRelated(project_id),
        Timestamp::new(1_704_880_800, 0),
    ));

    let issues = storage.check_data_integrity(&app_data);
    assert!(issues.is_empty());

    app_data.projects.push(Project::new("重复项目".to_string(), None));
    app_data.projects[1].id = project_id;

    let issues = storage.check_data_integrity(&app_data);
    assert!(!issues.is_empty());
    assert!(issues.iter().any(|issue| issue.contains("项目ID重复")));
}

#[test]
fn integrity_messages_name_the_ids() {
    let storage = Storage::new("./data".to_string());
    let mut app_data = AppData::new();
    let mut e = Event::new("E".to_string(), None, EventType::ProjectRelated(0x0123_4567_89ab_cdef_0011_2233_4455_6677), Timestamp::new(0, 0));
    e.id = 1;
    app_data.events.push(e);
    let issues = storage.check_data_integrity(&app_data);
    assert_eq!(
        issues,
        vec![
            "事件引用的项目不存在: 事件ID 00000000-0000-0000-0000-000000000001, 项目ID 01234567-89ab-cdef-0011-223344556677"
                .to_string()
        ]
    );
}

#[test]
fn snapshot_copies_both_managers() {
    let mut pm = ProjectManager::new();
    let mut em = EventManager::new();
    let p = pm.add_project("A".to_string(), None);
    let e = em.add_project_event("E".to_string(), None, p, Some(Timestamp::new(0, 0)));
    em.set_event_end_time(e, Some(Timestamp::new(600, 0))).unwrap();
    let data = AppData::from_managers(&pm, &em);
    assert_eq!(data.projects.len(), 1);
    assert_eq!(data.projects[0].id, p);
    assert_eq!(data.events.len(), 1);
    assert_eq!(data.time_records.len(), 1);
    assert_eq!(data.time_records[0].duration_minutes, 10);
    assert!(data.weekly_reports.is_empty());
    let storage = Storage::new("./data".to_string());
    assert!(storage.check_data_integrity(&data).is_empty());
}

#[test]
fn csv_export_rows() {
    let mut pm = ProjectManager::new();
    let mut em = EventManager::new();
    let p = pm.add_project("甲".to_string(), Some("说明".to_string()));
    let t0 = Timestamp::new(1_704_888_000, 0);
    let e = em.add_project_event("写".to_string(), None, p, Some(t0));
    em.set_event_end_time(e, Some(Timestamp::new(t0.secs + 5400, 0))).unwrap();
    em.add_non_project_event("读".to_string(), None, Some(t0));
    em.add_project_event("丢".to_string(), None, 77, Some(t0));
    let csv = project_tracker::storage::export_csv_content(&pm, &em);
    let lines: Vec<&str> = csv.lines().collect();
    assert_eq!(lines[0], "类型,名称,描述,项目,开始时间,结束时间,持续时间(分钟)");
    assert_eq!(lines[1], "项目,\"甲\",\"说明\",N/A,N/A,N/A,N/A");
    assert_eq!(lines[2], "事件,\"写\",\"\",\"甲\",\"2024-01-10 12:00:00\",\"2024-01-10 13:30:00\",90");
    assert_eq!(lines[3], "事件,\"读\",\"\",\"项目外\",\"2024-01-10 12:00:00\",\"N/A\",进行中");
    assert_eq!(lines[4], "事件,\"丢\",\"\",\"未知项目\",\"2024-01-10 12:00:00\",\"N/A\",进行中");
    assert_eq!(lines[5], "时间记录,N/A,N/A,\"甲\",\"2024-01-10 12:00:00\",\"2024-01-10 13:30:00\",90");
    assert_eq!(lines.len(), 6);
}

#[test]
fn error_messages() {
    assert_eq!(TrackerError::AlreadyCompleted.message(), "事件已经结束");
    assert_eq!(TrackerError::InvalidRange.message(), "结束时间必须晚于开始时间");
    assert_eq!(TrackerError::NoActiveProject.message(), "没有当前活动项目");
}
