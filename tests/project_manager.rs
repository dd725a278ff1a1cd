use project_tracker::models::{EventType, TrackerError};
use project_tracker::project_manager::ProjectManager;

#[test]
fn test_add_project() {
    let mut manager = ProjectManager::new();
    let project_id = manager.add_project("测试项目".to_string(), Some("测试描述".to_string()));

    assert_eq!(manager.get_project_count(), 1);
    assert!(manager.project_exists(project_id));

    let project = manager.get_project(project_id).unwrap();
    assert_eq!(project.name, "测试项目");
    assert_eq!(project.description, Some("测试描述".to_string()));
    assert!(project.is_active);
}

#[test]
fn test_switch_project() {
    let mut manager = ProjectManager::new();
    let id1 = manager.add_project("项目1".to_string(), None);
    let id2 = manager.add_project("项目2".to_string(), None);

    assert_eq!(manager.get_current_project().unwrap().id, id1);

    manager.switch_to_project(id2).unwrap();
    assert_eq!(manager.get_current_project().unwrap().id, id2);

    assert!(!manager.get_project(id1).unwrap().is_active);
    assert!(manager.get_project(id2).unwrap().is_active);
}

#[test]
fn test_delete_project() {
    let mut manager = ProjectManager::new();
    let id1 = manager.add_project("项目1".to_string(), None);
    let id2 = manager.add_project("项目2".to_string(), None);

    manager.switch_to_project(id2).unwrap();
    manager.delete_project(id1).unwrap();

    assert_eq!(manager.get_project_count(), 1);
    assert!(!manager.project_exists(id1));
    assert!(manager.project_exists(id2));
}

#[test]
fn second_project_starts_inactive() {
    let mut manager = ProjectManager::new();
    let id1 = manager.add_project("P1".to_string(), None);
    let id2 = manager.add_project("P2".to_string(), None);
    assert!(manager.get_project(id1).unwrap().is_active);
    assert!(!manager.get_project(id2).unwrap().is_active);
    assert_eq!(manager.get_current_project().unwrap().id, id1);
}

#[test]
fn switching_twice_leaves_one_active_project() {
    let mut manager = ProjectManager::new();
    let a = manager.add_project("A".to_string(), None);
    let b = manager.add_project("B".to_string(), None);
    let c = manager.add_project("C".to_string(), None);
    manager.switch_to_project(b).unwrap();
    manager.switch_to_project(b).unwrap();
    let active: Vec<u128> = manager
        .get_all_projects()
        .iter()
        .filter(|p| p.is_active)
        .map(|p| p.id)
        .collect();
    assert_eq!(active, vec![b]);
    assert_eq!(manager.get_current_project().unwrap().id, b);
    assert!(manager.project_exists(a) && manager.project_exists(c));
}

#[test]
fn deleting_the_current_project_clears_it() {
    let mut manager = ProjectManager::new();
    let a = manager.add_project("A".to_string(), None);
    manager.add_project("B".to_string(), None);
    manager.delete_project(a).unwrap();
    assert!(manager.get_current_project().is_none());
    assert!(manager.get_all_projects().iter().all(|p| !p.is_active));
}

#[test]
fn unknown_project_is_not_found() {
    let mut manager = ProjectManager::new();
    manager.add_project("A".to_string(), None);
    assert_eq!(manager.switch_to_project(5), Err(TrackerError::NotFound));
    assert_eq!(manager.delete_project(5), Err(TrackerError::NotFound));
    assert_eq!(manager.update_project(5, None, None), Err(TrackerError::NotFound));
}

#[test]
fn update_project_changes_given_fields() {
    let mut manager = ProjectManager::new();
    let a = manager.add_project("A".to_string(), Some("d".to_string()));
    manager.update_project(a, None, Some("e".to_string())).unwrap();
    let p = manager.get_project(a).unwrap();
    assert_eq!(p.name, "A");
    assert_eq!(p.description, Some("e".to_string()));
    assert_eq!(manager.get_project_names(), vec!["A".to_string()]);
}

#[test]
fn project_event_needs_a_current_project() {
    let mut manager = ProjectManager::new();
    let err = manager.create_project_event("T".to_string(), None);
    assert_eq!(err.err(), Some(TrackerError::NoActiveProject));
    let a = manager.add_project("A".to_string(), None);
    let e = manager.create_project_event("T".to_string(), None).unwrap();
    assert_eq!(e.event_type, EventType::ProjectRelated(a));
    assert!(e.end_time.is_none());
    let n = manager.create_non_project_event("N".to_string(), None);
    assert_eq!(n.event_type, EventType::NonProject);
}
