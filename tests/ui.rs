use project_tracker::models::{EventType, Project, Timestamp};
use project_tracker::storage::AppData;
use project_tracker::ui::{App, AppMode, Key, ListState};

#[test]
fn list_state_selection() {
    let mut s = ListState::default();
    assert_eq!(s.selected(), None);
    s.select(Some(3));
    assert_eq!(s.selected(), Some(3));
}

#[test]
fn app_flow() {
    let mut app = App::new();
    assert_eq!(app.mode, AppMode::ProjectList);
    app.add_event("T".to_string(), None, true);
    assert_eq!(app.message, "没有当前活动项目，请先选择项目");
    app.add_project("P".to_string(), None);
    assert!(app.message.starts_with("项目添加成功: ID "));
    app.add_event("T".to_string(), None, true);
    assert!(app.message.starts_with("项目事件添加成功: ID "));
    let id = app.get_events()[0].id;
    app.switch_to_project(99);
    assert_eq!(app.message, "切换项目失败: 项目不存在");
    app.complete_event(12345);
    assert_eq!(app.message, "完成事件失败: 事件不存在");
    app.complete_event(id);
    assert_eq!(app.message, "事件已完成");
    app.complete_event(id);
    assert_eq!(app.message, "完成事件失败: 事件已经结束");
    assert!(app.get_weekly_report().contains("每周报表"));
}

#[test]
fn restoring_a_snapshot() {
    let mut data = AppData::new();
    let mut a = Project::new("A".to_string(), None);
    a.is_active = false;
    let mut b = Project::new("B".to_string(), Some("d".to_string()));
    b.is_active = true;
    data.projects.push(a);
    data.projects.push(b);
    data.events.push(project_tracker::models::Event::new(
        "E".to_string(),
        None,
        EventType::NonProject,
        Timestamp::new(5, 0),
    ));
    let app = App::from_data(data);
    let projects = app.get_projects();
    assert_eq!(projects.len(), 2);
    assert_eq!(projects[1].description, Some("d".to_string()));
    assert_eq!(app.get_current_project().unwrap().name, "B");
    let events = app.get_events();
    assert_eq!(events.len(), 1);
    assert_eq!(events[0].start_time, Timestamp::new(5, 0));
    assert_eq!(app.message, "已加载保存的数据");
}

fn press(app: &mut App, keys: &[Key]) {
    for k in keys {
        assert!(!app.handle_key(*k));
    }
}

#[test]
fn keys_add_a_project_with_wide_characters() {
    let mut app = App::new();
    press(&mut app, &[Key::Char('a')]);
    assert_eq!(app.mode, AppMode::AddProject);
    press(&mut app, &[Key::Char('项'), Key::Char('目'), Key::Left, Key::Char('新')]);
    assert_eq!(app.input, "项新目");
    assert_eq!(app.input_cursor, 2);
    press(&mut app, &[Key::Backspace, Key::Right, Key::Right]);
    assert_eq!(app.input, "项目");
    assert_eq!(app.input_cursor, 2);
    press(&mut app, &[Key::Enter]);
    assert_eq!(app.mode, AppMode::ProjectList);
    assert_eq!(app.input, "");
    assert_eq!(app.get_projects()[0].name, "项目");
    assert!(app.get_projects()[0].is_active);
}

#[test]
fn keys_move_and_wrap_the_selection() {
    let mut app = App::new();
    app.add_project("A".to_string(), None);
    app.add_project("B".to_string(), None);
    press(&mut app, &[Key::Down]);
    assert_eq!(app.project_list_state.selected(), Some(1));
    press(&mut app, &[Key::Down]);
    assert_eq!(app.project_list_state.selected(), Some(0));
    press(&mut app, &[Key::Up]);
    assert_eq!(app.project_list_state.selected(), Some(1));
    press(&mut app, &[Key::Enter]);
    assert_eq!(app.get_current_project().unwrap().name, "B");
    assert_eq!(app.message, "项目切换成功");
}

#[test]
fn keys_add_and_complete_an_event() {
    let mut app = App::new();
    app.add_project("A".to_string(), None);
    press(&mut app, &[Key::Char('e'), Key::Char('p')]);
    assert_eq!(app.mode, AppMode::AddEvent);
    assert!(app.event_type_selection);
    press(&mut app, &[Key::Char('x'), Key::Enter]);
    assert_eq!(app.mode, AppMode::EventList);
    let events = app.get_events();
    assert_eq!(events.len(), 1);
    assert_eq!(events[0].title, "x");
    assert!(matches!(events[0].event_type, EventType::ProjectRelated(_)));
    press(&mut app, &[Key::Enter]);
    assert_eq!(app.message, "事件已完成");
    assert_eq!(app.event_manager.get_all_time_records().len(), 1);
}

#[test]
fn global_keys() {
    let mut app = App::new();
    press(&mut app, &[Key::Char('h')]);
    assert_eq!(app.mode, AppMode::Help);
    press(&mut app, &[Key::Char('r')]);
    assert_eq!(app.mode, AppMode::Reports);
    press(&mut app, &[Key::Char('x'), Key::Esc]);
    assert_eq!(app.mode, AppMode::ProjectList);
    assert!(app.handle_key(Key::Char('q')));
}
