use chrono::{Duration, Utc};
use project_tracker::event_manager::EventManager;
use project_tracker::models::{EventType, Timestamp, TrackerError};
use uuid::Uuid;

fn stamp(t: chrono::DateTime<Utc>) -> Timestamp {
    Timestamp::new(t.timestamp(), t.timestamp_subsec_nanos())
}

#[test]
fn test_add_project_event() {
    let mut manager = EventManager::new();
    let project_id = Uuid::new_v4().as_u128();

    let event_id = manager.add_project_event(
        "测试事件".to_string(),
        Some("测试描述".to_string()),
        project_id,
        None,
    );

    assert_eq!(manager.get_event_count(), 1);
    assert!(manager.event_exists(event_id));

    let event = manager.get_event(event_id).unwrap();
    assert_eq!(event.title, "测试事件");
    assert_eq!(event.description, Some("测试描述".to_string()));
    assert!(matches!(event.event_type, EventType::ProjectRelated(id) if id == project_id));
}

#[test]
fn test_add_non_project_event() {
    let mut manager = EventManager::new();

    let event_id = manager.add_non_project_event("非项目事件".to_string(), None, None);

    assert_eq!(manager.get_event_count(), 1);

    let event = manager.get_event(event_id).unwrap();
    assert_eq!(event.title, "非项目事件");
    assert!(matches!(event.event_type, EventType::NonProject));
}

#[test]
fn test_set_event_end_time() {
    let mut manager = EventManager::new();
    let project_id = Uuid::new_v4().as_u128();

    let event_id = manager.add_project_event("测试事件".to_string(), None, project_id, None);

    let end_time = stamp(Utc::now() + Duration::hours(1));
    manager.set_event_end_time(event_id, Some(end_time)).unwrap();

    let event = manager.get_event(event_id).unwrap();
    assert!(event.is_completed());
    assert_eq!(event.end_time, Some(end_time));

    let time_record = manager.get_event_time_record(event_id).unwrap();
    assert_eq!(time_record.event_id, event_id);
    assert_eq!(time_record.project_id, Some(project_id));
}

#[test]
fn test_get_project_events() {
    let mut manager = EventManager::new();
    let project_id1 = Uuid::new_v4().as_u128();
    let project_id2 = Uuid::new_v4().as_u128();

    manager.add_project_event("项目1事件".to_string(), None, project_id1, None);
    manager.add_project_event("项目2事件".to_string(), None, project_id2, None);
    manager.add_non_project_event("非项目事件".to_string(), None, None);

    let project1_events = manager.get_project_events(project_id1);
    assert_eq!(project1_events.len(), 1);
    assert_eq!(project1_events[0].title, "项目1事件");

    let project2_events = manager.get_project_events(project_id2);
    assert_eq!(project2_events.len(), 1);
    assert_eq!(project2_events[0].title, "项目2事件");

    let non_project_events = manager.get_non_project_events();
    assert_eq!(non_project_events.len(), 1);
    assert_eq!(non_project_events[0].title, "非项目事件");
}

#[test]
fn completing_two_hours_records_one_hundred_twenty_minutes() {
    let mut manager = EventManager::new();
    let project_id = 7u128;
    let t0 = Timestamp::new(1_704_880_800, 0);
    let event_id = manager.add_project_event("写代码".to_string(), None, project_id, Some(t0));
    manager
        .set_event_end_time(event_id, Some(Timestamp::new(t0.secs + 120 * 60, 0)))
        .unwrap();
    let records = manager.get_all_time_records();
    assert_eq!(records.len(), 1);
    assert_eq!(records[0].duration_minutes, 120);
    assert_eq!(records[0].project_id, Some(project_id));
    assert_eq!(records[0].event_id, event_id);
    assert_eq!(records[0].start_time, t0);
}

#[test]
fn duration_rounds_down_to_whole_minutes() {
    let mut manager = EventManager::new();
    let t0 = Timestamp::new(1_000_000, 500_000_000);
    let id = manager.add_non_project_event("午饭".to_string(), None, Some(t0));
    manager.set_event_end_time(id, Some(Timestamp::new(1_000_000 + 179, 400_000_000))).unwrap();
    let record = manager.get_event_time_record(id).unwrap();
    assert_eq!(record.duration_minutes, 2);
    assert_eq!(record.project_id, None);
}

#[test]
fn completing_twice_is_refused_and_keeps_the_record() {
    let mut manager = EventManager::new();
    let t0 = Timestamp::new(1_000_000, 0);
    let id = manager.add_non_project_event("会议".to_string(), None, Some(t0));
    manager.set_event_end_time(id, Some(Timestamp::new(1_003_600, 0))).unwrap();
    let first = *manager.get_event_time_record(id).unwrap();
    let again = manager.set_event_end_time(id, Some(Timestamp::new(1_007_200, 0)));
    assert_eq!(again, Err(TrackerError::AlreadyCompleted));
    assert_eq!(manager.get_all_time_records().len(), 1);
    assert_eq!(*manager.get_event_time_record(id).unwrap(), first);
    assert_eq!(first.duration_minutes, 60);
}

#[test]
fn ending_at_or_before_the_start_is_refused() {
    let mut manager = EventManager::new();
    let t0 = Timestamp::new(1_000_000, 0);
    let id = manager.add_non_project_event("会议".to_string(), None, Some(t0));
    assert_eq!(manager.set_event_end_time(id, Some(t0)), Err(TrackerError::InvalidRange));
    assert_eq!(
        manager.set_event_end_time(id, Some(Timestamp::new(999_000, 0))),
        Err(TrackerError::InvalidRange)
    );
    assert_eq!(manager.get_all_time_records().len(), 0);
    assert!(!manager.get_event(id).unwrap().is_completed());
}

#[test]
fn unknown_event_is_not_found() {
    let mut manager = EventManager::new();
    assert_eq!(manager.set_event_end_time(42, None), Err(TrackerError::NotFound));
    assert_eq!(manager.delete_event(42), Err(TrackerError::NotFound));
    assert_eq!(manager.update_event(42, None, None), Err(TrackerError::NotFound));
}

#[test]
fn deleting_an_event_removes_only_its_record() {
    let mut manager = EventManager::new();
    let t0 = Timestamp::new(2_000_000, 0);
    let a = manager.add_project_event("甲".to_string(), None, 1, Some(t0));
    let b = manager.add_project_event("乙".to_string(), None, 1, Some(t0));
    manager.set_event_end_time(a, Some(Timestamp::new(2_000_600, 0))).unwrap();
    manager.set_event_end_time(b, Some(Timestamp::new(2_001_200, 0))).unwrap();
    assert_eq!(manager.get_all_time_records().len(), 2);
    manager.delete_event(a).unwrap();
    assert!(!manager.event_exists(a));
    let left = manager.get_all_time_records();
    assert_eq!(left.len(), 1);
    assert_eq!(left[0].event_id, b);
    assert_eq!(left[0].duration_minutes, 20);
}

#[test]
fn update_changes_only_given_fields() {
    let mut manager = EventManager::new();
    let id = manager.add_non_project_event("旧".to_string(), Some("描述".to_string()), None);
    manager.update_event(id, Some("新".to_string()), None).unwrap();
    let e = manager.get_event(id).unwrap();
    assert_eq!(e.title, "新");
    assert_eq!(e.description, Some("描述".to_string()));
}

#[test]
fn queries_split_active_and_completed_and_ranges() {
    let mut manager = EventManager::new();
    let a = manager.add_non_project_event("甲".to_string(), None, Some(Timestamp::new(100, 0)));
    manager.add_project_event("乙".to_string(), None, 3, Some(Timestamp::new(200, 0)));
    manager.set_event_end_time(a, Some(Timestamp::new(400, 0))).unwrap();
    assert_eq!(manager.get_active_events().len(), 1);
    assert_eq!(manager.get_completed_events().len(), 1);
    assert_eq!(manager.get_events_in_range(Timestamp::new(150, 0), Timestamp::new(200, 0)).len(), 1);
    assert_eq!(manager.get_time_records_in_range(Timestamp::new(100, 0), Timestamp::new(100, 0)).len(), 1);
    assert_eq!(manager.get_non_project_time_records().len(), 1);
    assert_eq!(manager.get_project_time_records(3).len(), 0);
    let rid = manager.get_all_time_records()[0].id;
    assert_eq!(manager.get_time_record(rid).unwrap().event_id, a);
}

#[test]
fn event_duration_in_nanoseconds() {
    let mut manager = EventManager::new();
    let id = manager.add_non_project_event("甲".to_string(), None, Some(Timestamp::new(10, 0)));
    assert_eq!(manager.get_event(id).unwrap().duration(), None);
    manager.set_event_end_time(id, Some(Timestamp::new(70, 5))).unwrap();
    assert_eq!(manager.get_event(id).unwrap().duration(), Some(60_000_000_005));
}
