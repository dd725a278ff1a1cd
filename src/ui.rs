//! The state of the interactive session: the registry and the ledger, the
//! screen being shown, list selections, the input line and the status
//! message, with the actions that the keys trigger.
use vstd::prelude::*;

use crate::event_manager::{completed_in, event_with, EventManager};
use crate::models::{Event, EventType, Project, TimeRecord, TrackerError};
use crate::platform::{format_id, id_text, now, push_char};
use crate::project_manager::{holds_project, switched, ProjectManager};
use crate::report_generator::{summary_text, ReportGenerator};
use crate::storage::AppData;
use crate::time_calculator::{
    deref_records, is_breakdown, minutes_fit, non_project_in, project_in, sum_where, totals_fit,
    week_end_of, week_in_range, week_start_of,
};
use std::collections::HashMap;

verus! {

broadcast use vstd::std_specs::hash::group_hash_axioms;

/// The screen being shown.
#[derive(Clone, Copy, Debug, PartialEq, Eq, Structural)]
pub enum AppMode {
    ProjectList,
    EventList,
    AddProject,
    AddEvent,
    Reports,
    Help,
}

/// The selected row of a list, if any.
pub struct ListState {
    selected: Option<usize>,
}

impl ListState {
    pub closed spec fn selection(&self) -> Option<usize> {
        self.selected
    }

    pub fn select(&mut self, index: Option<usize>)
        ensures
            final(self).selection() == index,
    {
        self.selected = index;
    }

    pub fn selected(&self) -> (r: Option<usize>)
        ensures
            r == self.selection(),
    {
        self.selected
    }
}

impl Default for ListState {
    fn default() -> (r: ListState)
        ensures
            r.selection().is_none(),
    {
        ListState { selected: None }
    }
}

/// Project names by id, as the projects `ps` give them, a later project
/// winning over an earlier one with the same id.
pub open spec fn name_table(ps: Seq<Project>) -> Map<u128, String>
    decreases ps.len(),
{
    if ps.len() == 0 {
        Map::empty()
    } else {
        name_table(ps.drop_last()).insert(ps.last().id, ps.last().name)
    }
}

/// The index of the last active project among the first `n` of `ps`.
pub open spec fn last_active(ps: Seq<Project>, n: int) -> Option<int>
    decreases n,
{
    if n <= 0 {
        None
    } else if ps[n - 1].is_active {
        Some(n - 1)
    } else {
        last_active(ps, n - 1)
    }
}

/// The last active project among the first `n` comes before the `n`-th.
proof fn lemma_last_active_below(ps: Seq<Project>, n: int)
    ensures
        last_active(ps, n) matches Some(k) ==> 0 <= k < n,
    decreases n,
{
    if n > 0 {
        lemma_last_active_below(ps, n - 1);
    }
}

/// The current project after replaying the first `n` of `ps`: the last
/// active one, or the first where none is active.
pub open spec fn replayed_current(ps: Seq<Project>, n: int) -> Option<int> {
    if n <= 0 {
        None
    } else {
        match last_active(ps, n) {
            Some(k) => Some(k),
            None => Some(0),
        }
    }
}

/// The id, among the rebuilt projects `rebuilt`, of the project that is
/// current after replaying the first `n` of `ps`.
pub open spec fn replayed_id(rebuilt: Seq<Project>, ps: Seq<Project>, n: int) -> Option<u128> {
    match replayed_current(ps, n) {
        Some(k) => if 0 <= k < rebuilt.len() {
            Some(rebuilt[k].id)
        } else {
            None
        },
        None => None,
    }
}

/// A key press, as the session reads it.
#[derive(Clone, Copy, Debug, PartialEq, Eq, Structural)]
pub enum Key {
    Char(char),
    Up,
    Down,
    Left,
    Right,
    Enter,
    Esc,
    Backspace,
    Other,
}

/// The keys that act the same on every screen.
pub open spec fn is_global(key: Key) -> bool {
    key == Key::Char('q') || key == Key::Char('h') || key == Key::Esc || key == Key::Char('r')
}

/// The row below `sel` in a list of `len` rows, the last wrapping to the
/// first.
pub open spec fn row_below(sel: usize, len: int) -> usize {
    if sel >= (if len > 0 { len - 1 } else { 0 }) {
        0
    } else {
        (sel + 1) as usize
    }
}

/// The row above `sel` in a list of `len` rows, the first wrapping to the
/// last.
pub open spec fn row_above(sel: usize, len: int) -> usize {
    if sel == 0 {
        (if len > 0 { len - 1 } else { 0 }) as usize
    } else {
        (sel - 1) as usize
    }
}

/// The selection after an up or down key on a list of `len` rows.
pub open spec fn moved(sel: Option<usize>, key: Key, len: int) -> Option<usize> {
    match sel {
        Some(s) => if key == Key::Down {
            Some(row_below(s, len))
        } else {
            Some(row_above(s, len))
        },
        None => None,
    }
}

/// The input line and cursor after an editing key: a character goes in at
/// the cursor, backspace takes out the one before it, and the arrows move
/// it within the line.
pub open spec fn edited(input: Seq<char>, cursor: int, key: Key) -> (Seq<char>, int) {
    match key {
        Key::Char(c) => (input.insert(cursor, c), cursor + 1),
        Key::Backspace => if cursor > 0 {
            (input.remove(cursor - 1), cursor - 1)
        } else {
            (input, cursor)
        },
        Key::Left => if cursor > 0 {
            (input, cursor - 1)
        } else {
            (input, cursor)
        },
        Key::Right => if cursor < input.len() {
            (input, cursor + 1)
        } else {
            (input, cursor)
        },
        _ => (input, cursor),
    }
}

/// Whether `b` is the input line of `a` edited by `key`, all else kept.
pub open spec fn edits(a: App, key: Key, b: App) -> bool {
    &&& b.input@ == edited(a.input@, a.input_cursor as int, key).0
    &&& b.input_cursor == edited(a.input@, a.input_cursor as int, key).1
    &&& b == (App { input: b.input, input_cursor: b.input_cursor, ..a })
}

/// Whether `b` is `a` with the screen `mode` and an empty input line.
pub open spec fn cleared_to(a: App, mode: AppMode, b: App) -> bool {
    &&& b.input@.len() == 0
    &&& b == (App { mode, input: b.input, input_cursor: 0, ..a })
}

/// What a key that is not global does on the project list.
pub open spec fn project_list_effect(a: App, key: Key, b: App) -> bool {
    let len = a.project_manager.projects().len() as int;
    match key {
        Key::Up | Key::Down => {
            &&& b.project_list_state.selection() == moved(a.project_list_state.selection(), key, len)
            &&& b == (App { project_list_state: b.project_list_state, ..a })
        },
        Key::Enter => match a.project_list_state.selection() {
            Some(i) if i < len => {
                let id = a.project_manager.projects()[i as int].id;
                &&& b.project_manager.projects() == switched(a.project_manager.projects(), id)
                &&& b.project_manager.current_id() == Some(id)
                &&& b.message@ == "项目切换成功"@
                &&& b == (App { project_manager: b.project_manager, message: b.message, ..a })
            },
            _ => b == a,
        },
        Key::Char('a') => cleared_to(a, AppMode::AddProject, b),
        Key::Char('e') => {
            &&& b.event_list_state.selection() == Some(0usize)
            &&& b == (App { mode: AppMode::EventList, event_list_state: b.event_list_state, ..a })
        },
        _ => b == a,
    }
}

/// What completing event `id` now leaves: an unknown or ended event is
/// refused with a message and the ledger kept; an active one is completed
/// with its record, or, where the clock does not read after its start,
/// refused as an empty interval.
pub open spec fn completion_outcome(a: App, b: App, id: u128) -> bool {
    if !a.event_manager.has(id) {
        &&& b.event_manager == a.event_manager
        &&& b.message@ == "完成事件失败: 事件不存在"@
    } else if event_with(a.event_manager, id).end_time.is_some() {
        &&& b.event_manager == a.event_manager
        &&& b.message@ == "完成事件失败: 事件已经结束"@
    } else {
        ||| completed_in(a.event_manager, b.event_manager, id) && b.message@ == "事件已完成"@
        ||| b.event_manager == a.event_manager && b.message@ == "完成事件失败: 结束时间必须晚于开始时间"@
            && event_with(a.event_manager, id).start_time.instant() >= 0
    }
}

/// What a key that is not global does on the event list.
pub open spec fn event_list_effect(a: App, key: Key, b: App) -> bool {
    let len = a.event_manager.events().len() as int;
    match key {
        Key::Up | Key::Down => {
            &&& b.event_list_state.selection() == moved(a.event_list_state.selection(), key, len)
            &&& b == (App { event_list_state: b.event_list_state, ..a })
        },
        Key::Enter => match a.event_list_state.selection() {
            Some(i) if i < len && a.event_manager.events()[i as int].end_time.is_none() => {
                &&& completion_outcome(a, b, a.event_manager.events()[i as int].id)
                &&& b == (App { event_manager: b.event_manager, message: b.message, ..a })
            },
            _ => b == a,
        },
        Key::Char('a') | Key::Char('p') => {
            &&& b.input@.len() == 0
            &&& b == (App {
                mode: AppMode::AddEvent,
                input: b.input,
                input_cursor: 0,
                event_type_selection: key == Key::Char('p'),
                ..a
            })
        },
        _ => b == a,
    }
}

/// What a key that is not global does on the screen that adds a project.
pub open spec fn add_project_effect(a: App, key: Key, b: App) -> bool {
    if key == Key::Enter {
        if a.input@.len() > 0 {
            &&& b.project_manager.projects().drop_last() == a.project_manager.projects()
            &&& b.project_manager.projects().len() == a.project_manager.projects().len() + 1
            &&& b.project_manager.projects().last().name@ == a.input@
            &&& b.project_manager.projects().last().description.is_none()
            &&& b.event_manager == a.event_manager
            &&& b.mode == AppMode::ProjectList
            &&& b.input@.len() == 0
            &&& b.input_cursor == 0
        } else {
            b == a
        }
    } else {
        edits(a, key, b)
    }
}

/// What a key that is not global does on the screen that adds an event.
pub open spec fn add_event_effect(a: App, key: Key, b: App) -> bool {
    if key == Key::Enter {
        if a.input@.len() > 0 {
            &&& b.project_manager == a.project_manager
            &&& (a.event_type_selection && a.project_manager.current_id().is_none()) ==> b.event_manager
                == a.event_manager
            &&& !(a.event_type_selection && a.project_manager.current_id().is_none()) ==> {
                &&& b.event_manager.events().drop_last() == a.event_manager.events()
                &&& b.event_manager.events().len() == a.event_manager.events().len() + 1
                &&& b.event_manager.events().last().title@ == a.input@
            }
            &&& b.mode == AppMode::EventList
            &&& b.input@.len() == 0
            &&& b.input_cursor == 0
        } else {
            b == a
        }
    } else {
        edits(a, key, b)
    }
}

/// What a key that is not global does on the screen `a` shows.
pub open spec fn key_effect(a: App, key: Key, b: App) -> bool {
    match a.mode {
        AppMode::ProjectList => project_list_effect(a, key, b),
        AppMode::EventList => event_list_effect(a, key, b),
        AppMode::AddProject => add_project_effect(a, key, b),
        AppMode::AddEvent => add_event_effect(a, key, b),
        AppMode::Reports | AppMode::Help => b == a,
    }
}

/// The line `s` with `c` put in before its `at`-th character.
fn inserted(s: &String, at: usize, c: char) -> (r: String)
    requires
        at <= s@.len(),
    ensures
        r@ == s@.insert(at as int, c),
{
    let n = s.as_str().unicode_len();
    let mut r = String::from_str(s.as_str().substring_char(0, at));
    push_char(&mut r, c);
    r.append(s.as_str().substring_char(at, n));
    assert(r@ =~= s@.insert(at as int, c));
    r
}

/// The line `s` without its `at`-th character.
fn removed(s: &String, at: usize) -> (r: String)
    requires
        at < s@.len(),
    ensures
        r@ == s@.remove(at as int),
{
    let n = s.as_str().unicode_len();
    let mut r = String::from_str(s.as_str().substring_char(0, at));
    r.append(s.as_str().substring_char(at + 1, n));
    assert(r@ =~= s@.remove(at as int));
    r
}

/// The whole session.
pub struct App {
    pub project_manager: ProjectManager,
    pub event_manager: EventManager,
    pub mode: AppMode,
    pub project_list_state: ListState,
    pub event_list_state: ListState,
    pub input: String,
    pub input_cursor: usize,
    pub message: String,
    pub selected_project_id: Option<u128>,
    pub event_type_selection: bool,
}

impl App {
    /// Whether the registry and the ledger are well formed and the cursor
    /// stands within the input line.
    pub open spec fn wf(&self) -> bool {
        &&& self.project_manager.wf()
        &&& self.event_manager.wf()
        &&& self.input_cursor <= self.input@.len()
    }

    /// An empty session on the project list, with the first rows selected.
    pub fn new() -> (r: App)
        ensures
            r.wf(),
            r.project_manager.projects().len() == 0,
            r.event_manager.events().len() == 0,
            r.event_manager.records().len() == 0,
            r.mode == AppMode::ProjectList,
            r.project_list_state.selection() == Some(0usize),
            r.event_list_state.selection() == Some(0usize),
            r.message@.len() == 0,
    {
        let mut app = App {
            project_manager: ProjectManager::new(),
            event_manager: EventManager::new(),
            mode: AppMode::ProjectList,
            project_list_state: ListState::default(),
            event_list_state: ListState::default(),
            input: String::new(),
            input_cursor: 0,
            message: String::new(),
            selected_project_id: None,
            event_type_selection: false,
        };
        app.project_list_state.select(Some(0));
        app.event_list_state.select(Some(0));
        app
    }

    /// A session rebuilt from a snapshot: each project is added again, and
    /// switched to where it was active; each event is added again, active,
    /// with its kind and start time. Time records are not carried over: they
    /// come back as events are completed again.
    pub fn from_data(data: AppData) -> (r: App)
        ensures
            r.wf(),
            r.project_manager.projects().len() == data.projects@.len(),
            forall|i: int|
                0 <= i < data.projects@.len() ==> (#[trigger] r.project_manager.projects()[i]).name
                    == data.projects@[i].name && r.project_manager.projects()[i].description
                    == data.projects@[i].description,
            r.project_manager.current_id() == replayed_id(
                r.project_manager.projects(),
                data.projects@,
                data.projects@.len() as int,
            ),
            r.event_manager.events().len() == data.events@.len(),
            forall|i: int|
                0 <= i < data.events@.len() ==> {
                    let e = #[trigger] r.event_manager.events()[i];
                    let d = data.events@[i];
                    &&& e.title == d.title
                    &&& e.description == d.description
                    &&& e.event_type == d.event_type
                    &&& e.start_time == d.start_time
                    &&& e.end_time.is_none()
                },
            r.event_manager.records().len() == 0,
            r.message@ == "已加载保存的数据"@,
            r.mode == AppMode::ProjectList,
    {
        let mut pm = ProjectManager::new();
        let ghost ps = data.projects@;
        let mut i: usize = 0;
        while i < data.projects.len()
            invariant
                0 <= i <= ps.len(),
                ps == data.projects@,
                pm.wf(),
                pm.projects().len() == i,
                forall|j: int|
                    0 <= j < i ==> (#[trigger] pm.projects()[j]).name == ps[j].name
                        && pm.projects()[j].description == ps[j].description,
                pm.current_id() == replayed_id(pm.projects(), ps, i as int),
            decreases ps.len() - i,
        {
            let p = &data.projects[i];
            let ghost before = pm.projects();
            let ghost cur0 = pm.current_id();
            let id = pm.add_project(p.name.clone(), crate::models::copy_text(&p.description));
            let ghost mid = pm.projects();
            proof {
                assert forall|j: int| 0 <= j < i implies mid[j] == before[j] by {
                    assert(mid.drop_last()[j] == mid[j]);
                }
                assert(mid[i as int] == mid.last());
                assert(holds_project(mid, id)) by {
                    assert(mid[i as int].id == id);
                }
            }
            if p.is_active {
                let _ = pm.switch_to_project(id);
                proof {
                    assert forall|j: int| 0 <= j <= i implies (#[trigger] pm.projects()[j]).name
                        == mid[j].name && pm.projects()[j].description == mid[j].description
                        && pm.projects()[j].id == mid[j].id by {
                        assert(pm.projects()[j] == switched(mid, id)[j]);
                    }
                }
            }
            proof {
                assert(last_active(ps, i + 1) == if ps[i as int].is_active {
                    Some(i as int)
                } else {
                    last_active(ps, i as int)
                });
                assert forall|j: int| 0 <= j <= i implies (#[trigger] pm.projects()[j]).name
                    == ps[j].name && pm.projects()[j].description == ps[j].description by {
                    if j < i {
                        assert(mid[j] == before[j]);
                    }
                }
                if !ps[i as int].is_active && i > 0 {
                    let k = replayed_current(ps, i as int).unwrap();
                    assert(0 <= k < i) by {
                        lemma_last_active_below(ps, i as int);
                    }
                    assert(mid[k] == before[k]);
                }
            }
            i += 1;
        }
        let mut em = EventManager::new();
        let ghost es = data.events@;
        let mut j: usize = 0;
        while j < data.events.len()
            invariant
                0 <= j <= es.len(),
                es == data.events@,
                em.wf(),
                em.events().len() == j,
                em.records().len() == 0,
                forall|k: int|
                    0 <= k < j ==> {
                        let e = #[trigger] em.events()[k];
                        let d = es[k];
                        &&& e.title == d.title
                        &&& e.description == d.description
                        &&& e.event_type == d.event_type
                        &&& e.start_time == d.start_time
                        &&& e.end_time.is_none()
                    },
            decreases es.len() - j,
        {
            let ev = &data.events[j];
            let ghost before = em.events();
            assert(forall|k: int| 0 <= k < j ==> {
                let e = #[trigger] before[k];
                let d = es[k];
                &&& e.title == d.title
                &&& e.description == d.description
                &&& e.event_type == d.event_type
                &&& e.start_time == d.start_time
                &&& e.end_time.is_none()
            });
            match ev.event_type {
                EventType::ProjectRelated(pid) => {
                    em.add_project_event(
                        ev.title.clone(),
                        crate::models::copy_text(&ev.description),
                        pid,
                        Some(ev.start_time),
                    );
                },
                EventType::NonProject => {
                    em.add_non_project_event(
                        ev.title.clone(),
                        crate::models::copy_text(&ev.description),
                        Some(ev.start_time),
                    );
                },
            }
            proof {
                assert forall|k: int| 0 <= k < j implies {
                    let e = #[trigger] em.events()[k];
                    let d = es[k];
                    &&& e.title == d.title
                    &&& e.description == d.description
                    &&& e.event_type == d.event_type
                    &&& e.start_time == d.start_time
                    &&& e.end_time.is_none()
                } by {
                    assert(em.events().drop_last()[k] == em.events()[k]);
                    assert(em.events()[k] == before[k]);
                }
                assert(em.events()[j as int] == em.events().last());
                assert(es[j as int] == *ev);
                assert(em.events()[j as int].description == es[j as int].description);
                assert(em.events()[j as int].end_time.is_none());
                assert(em.events()[j as int].title == es[j as int].title);
                assert(em.events()[j as int].event_type == es[j as int].event_type);
                assert(em.events()[j as int].start_time == es[j as int].start_time);
            }
            j += 1;
        }
        let mut app = App {
            project_manager: pm,
            event_manager: em,
            mode: AppMode::ProjectList,
            project_list_state: ListState::default(),
            event_list_state: ListState::default(),
            input: String::new(),
            input_cursor: 0,
            message: String::from_str("已加载保存的数据"),
            selected_project_id: None,
            event_type_selection: false,
        };
        app.project_list_state.select(Some(0));
        app.event_list_state.select(Some(0));
        app
    }

    /// Edits the input line by `key`.
    fn edit_input(&mut self, key: Key)
        requires
            old(self).wf(),
        ensures
            final(self).wf(),
            edits(*old(self), key, *final(self)),
    {
        let n = self.input.as_str().unicode_len();
        match key {
            Key::Char(c) => {
                self.input = inserted(&self.input, self.input_cursor, c);
                let longer = self.input.as_str().unicode_len();
                assert(self.input_cursor < longer);
                self.input_cursor = self.input_cursor + 1;
            },
            Key::Backspace => {
                if self.input_cursor > 0 {
                    self.input = removed(&self.input, self.input_cursor - 1);
                    self.input_cursor = self.input_cursor - 1;
                }
            },
            Key::Left => {
                if self.input_cursor > 0 {
                    self.input_cursor = self.input_cursor - 1;
                }
            },
            Key::Right => {
                if self.input_cursor < n {
                    self.input_cursor = self.input_cursor + 1;
                }
            },
            _ => {},
        }
    }

    /// Empties the input line and shows `mode`.
    fn clear_to(&mut self, mode: AppMode)
        requires
            old(self).wf(),
        ensures
            final(self).wf(),
            cleared_to(*old(self), mode, *final(self)),
    {
        self.mode = mode;
        self.input = String::new();
        self.input_cursor = 0;
    }

    fn project_list_key(&mut self, key: Key)
        requires
            old(self).wf(),
            old(self).mode == AppMode::ProjectList,
        ensures
            final(self).wf(),
            project_list_effect(*old(self), key, *final(self)),
    {
        let len = self.project_manager.get_project_count();
        match key {
            Key::Down => {
                if let Some(sel) = self.project_list_state.selected() {
                    let next = if sel >= len.saturating_sub(1) { 0 } else { sel + 1 };
                    self.project_list_state.select(Some(next));
                }
            },
            Key::Up => {
                if let Some(sel) = self.project_list_state.selected() {
                    let next = if sel == 0 { len.saturating_sub(1) } else { sel - 1 };
                    self.project_list_state.select(Some(next));
                }
            },
            Key::Enter => {
                if let Some(sel) = self.project_list_state.selected() {
                    let ps = self.project_manager.get_all_projects();
                    if sel < ps.len() {
                        let id = ps[sel].id;
                        proof {
                            assert(holds_project(self.project_manager.projects(), id)) by {
                                assert(self.project_manager.projects()[sel as int].id == id);
                            }
                        }
                        self.switch_to_project(id);
                    }
                }
            },
            Key::Char('a') => self.clear_to(AppMode::AddProject),
            Key::Char('e') => {
                self.mode = AppMode::EventList;
                self.event_list_state.select(Some(0));
            },
            _ => {},
        }
    }

    fn event_list_key(&mut self, key: Key)
        requires
            old(self).wf(),
            old(self).mode == AppMode::EventList,
        ensures
            final(self).wf(),
            event_list_effect(*old(self), key, *final(self)),
    {
        let len = self.event_manager.get_event_count();
        match key {
            Key::Down => {
                if let Some(sel) = self.event_list_state.selected() {
                    let next = if sel >= len.saturating_sub(1) { 0 } else { sel + 1 };
                    self.event_list_state.select(Some(next));
                }
            },
            Key::Up => {
                if let Some(sel) = self.event_list_state.selected() {
                    let next = if sel == 0 { len.saturating_sub(1) } else { sel - 1 };
                    self.event_list_state.select(Some(next));
                }
            },
            Key::Enter => {
                if let Some(sel) = self.event_list_state.selected() {
                    let es = self.event_manager.get_all_events();
                    if sel < es.len() {
                        assert(*es@[sel as int] == self.event_manager.events()[sel as int]);
                        let id = es[sel].id;
                        if !es[sel].is_completed() {
                            self.complete_event(id);
                        }
                    }
                }
            },
            Key::Char('a') => {
                self.clear_to(AppMode::AddEvent);
                self.event_type_selection = false;
            },
            Key::Char('p') => {
                self.clear_to(AppMode::AddEvent);
                self.event_type_selection = true;
            },
            _ => {},
        }
    }

    fn add_project_key(&mut self, key: Key)
        requires
            old(self).wf(),
            old(self).mode == AppMode::AddProject,
        ensures
            final(self).wf(),
            add_project_effect(*old(self), key, *final(self)),
    {
        if key == Key::Enter {
            if self.input.as_str().unicode_len() > 0 {
                let name = self.input.clone();
                self.add_project(name, None);
                self.clear_to(AppMode::ProjectList);
            }
        } else {
            self.edit_input(key);
        }
    }

    fn add_event_key(&mut self, key: Key)
        requires
            old(self).wf(),
            old(self).mode == AppMode::AddEvent,
        ensures
            final(self).wf(),
            add_event_effect(*old(self), key, *final(self)),
    {
        if key == Key::Enter {
            if self.input.as_str().unicode_len() > 0 {
                let title = self.input.clone();
                let kind = self.event_type_selection;
                self.add_event(title, None, kind);
                self.clear_to(AppMode::EventList);
            }
        } else {
            self.edit_input(key);
        }
    }

    /// Acts on one key press and says whether the session ends: `q` quits,
    /// `h` shows the help, `r` the report, and Esc goes back to the project
    /// list; any other key acts on the screen being shown.
    pub fn handle_key(&mut self, key: Key) -> (quit: bool)
        requires
            old(self).wf(),
        ensures
            final(self).wf(),
            quit == (key == Key::Char('q')),
            key == Key::Char('q') ==> *final(self) == *old(self),
            key == Key::Char('h') ==> *final(self) == (App { mode: AppMode::Help, ..*old(self) }),
            key == Key::Char('r') ==> *final(self) == (App { mode: AppMode::Reports, ..*old(self) }),
            key == Key::Esc ==> cleared_to(*old(self), AppMode::ProjectList, *final(self)),
            !is_global(key) ==> key_effect(*old(self), key, *final(self)),
    {
        match key {
            Key::Char('q') => {
                return true;
            },
            Key::Char('h') => {
                self.mode = AppMode::Help;
            },
            Key::Esc => self.clear_to(AppMode::ProjectList),
            Key::Char('r') => {
                self.mode = AppMode::Reports;
            },
            _ => match self.mode {
                AppMode::ProjectList => self.project_list_key(key),
                AppMode::EventList => self.event_list_key(key),
                AppMode::AddProject => self.add_project_key(key),
                AppMode::AddEvent => self.add_event_key(key),
                AppMode::Reports | AppMode::Help => {},
            },
        }
        false
    }

    pub fn get_projects(&self) -> (r: Vec<&Project>)
        ensures
            r@.len() == self.project_manager.projects().len(),
            forall|i: int| 0 <= i < r@.len() ==> *r@[i] == #[trigger] self.project_manager.projects()[i],
    {
        self.project_manager.get_all_projects()
    }

    pub fn get_events(&self) -> (r: Vec<&Event>)
        ensures
            r@.map_values(|e: &Event| *e) == self.event_manager.events(),
    {
        self.event_manager.get_all_events()
    }

    pub fn get_current_project(&self) -> (r: Option<&Project>)
        requires
            self.wf(),
        ensures
            r.is_some() == self.project_manager.current_id().is_some(),
            r matches Some(p) ==> Some(p.id) == self.project_manager.current_id()
                && self.project_manager.projects().contains(*p),
    {
        self.project_manager.get_current_project()
    }

    /// Adds a project and reports its id in the status message.
    pub fn add_project(&mut self, name: String, description: Option<String>)
        requires
            old(self).wf(),
        ensures
            final(self).wf(),
            *final(self) == (App {
                project_manager: final(self).project_manager,
                message: final(self).message,
                ..*old(self)
            }),
            final(self).project_manager.projects().drop_last() == old(self).project_manager.projects(),
            final(self).project_manager.projects().len() == old(self).project_manager.projects().len() + 1,
            final(self).project_manager.projects().last().name == name,
            final(self).project_manager.projects().last().description == description,
            final(self).message@ == "项目添加成功: ID "@ + id_text(
                final(self).project_manager.projects().last().id,
            ),
    {
        let id = self.project_manager.add_project(name, description);
        let mut m = String::from_str("项目添加成功: ID ");
        let t = format_id(id);
        m.append(t.as_str());
        self.message = m;
    }

    /// Switches to a project and says in the status message whether that
    /// worked.
    pub fn switch_to_project(&mut self, project_id: u128)
        requires
            old(self).wf(),
        ensures
            final(self).wf(),
            *final(self) == (App {
                project_manager: final(self).project_manager,
                message: final(self).message,
                ..*old(self)
            }),
            old(self).project_manager.has(project_id) ==> {
                &&& final(self).project_manager.projects() == switched(
                    old(self).project_manager.projects(),
                    project_id,
                )
                &&& final(self).project_manager.current_id() == Some(project_id)
                &&& final(self).message@ == "项目切换成功"@
            },
            !old(self).project_manager.has(project_id) ==> {
                &&& final(self).project_manager == old(self).project_manager
                &&& final(self).message@ == "切换项目失败: 项目不存在"@
            },
    {
        match self.project_manager.switch_to_project(project_id) {
            Ok(()) => {
                self.message = String::from_str("项目切换成功");
            },
            Err(_) => {
                self.message = String::from_str("切换项目失败: 项目不存在");
            },
        }
    }

    /// Adds an event starting now: of the current project, or outside any
    /// project. A project event with no current project is refused in the
    /// status message.
    pub fn add_event(&mut self, title: String, description: Option<String>, is_project_event: bool)
        requires
            old(self).wf(),
        ensures
            final(self).wf(),
            *final(self) == (App {
                event_manager: final(self).event_manager,
                message: final(self).message,
                ..*old(self)
            }),
            (is_project_event && old(self).project_manager.current_id().is_none()) ==> {
                &&& final(self).event_manager == old(self).event_manager
                &&& final(self).message@ == "没有当前活动项目，请先选择项目"@
            },
            !(is_project_event && old(self).project_manager.current_id().is_none()) ==> {
                let e = final(self).event_manager.events().last();
                &&& final(self).event_manager.events().drop_last() == old(self).event_manager.events()
                &&& final(self).event_manager.events().len() == old(self).event_manager.events().len() + 1
                &&& final(self).event_manager.records() == old(self).event_manager.records()
                &&& e.title == title
                &&& e.description == description
                &&& e.end_time.is_none()
                &&& e.event_type == if is_project_event {
                    EventType::ProjectRelated(old(self).project_manager.current_id().unwrap())
                } else {
                    EventType::NonProject
                }
                &&& final(self).message@ == (if is_project_event {
                    "项目事件添加成功: ID "@
                } else {
                    "项目外事件添加成功: ID "@
                }) + id_text(e.id)
            },
    {
        if is_project_event {
            match self.project_manager.get_current_project() {
                Some(current) => {
                    let pid = current.id;
                    let id = self.event_manager.add_project_event(title, description, pid, None);
                    let mut m = String::from_str("项目事件添加成功: ID ");
                    let t = format_id(id);
                    m.append(t.as_str());
                    self.message = m;
                },
                None => {
                    self.message = String::from_str("没有当前活动项目，请先选择项目");
                },
            }
        } else {
            let id = self.event_manager.add_non_project_event(title, description, None);
            let mut m = String::from_str("项目外事件添加成功: ID ");
            let t = format_id(id);
            m.append(t.as_str());
            self.message = m;
        }
    }

    /// Completes an event now and says in the status message whether that
    /// worked.
    pub fn complete_event(&mut self, event_id: u128)
        requires
            old(self).wf(),
        ensures
            final(self).wf(),
            *final(self) == (App {
                event_manager: final(self).event_manager,
                message: final(self).message,
                ..*old(self)
            }),
            completion_outcome(*old(self), *final(self), event_id),
    {
        match self.event_manager.set_event_end_time(event_id, None) {
            Ok(()) => {
                self.message = String::from_str("事件已完成");
            },
            Err(e) => {
                self.message = match e {
                    TrackerError::NotFound => String::from_str("完成事件失败: 事件不存在"),
                    TrackerError::AlreadyCompleted => String::from_str("完成事件失败: 事件已经结束"),
                    TrackerError::InvalidRange => String::from_str(
                        "完成事件失败: 结束时间必须晚于开始时间",
                    ),
                    TrackerError::NoActiveProject => String::from_str("完成事件失败: 没有当前活动项目"),
                };
            },
        }
    }

    /// The text of the report of the Monday-to-Sunday week of the current
    /// time, over all time records, with the projects' names; empty where the
    /// totals would not fit in an `i64` or the records are too many to count
    /// in an `i32`.
    pub fn get_weekly_report(&self) -> (r: String)
        ensures
            (minutes_fit(self.event_manager.records()) && self.event_manager.records().len()
                <= i32::MAX) <==> r@.len() > 0,
            r@.len() > 0 ==> exists|rep: crate::models::WeeklyReport, t: crate::models::Timestamp|
                week_in_range(t) && rep.week_start == week_start_of(t) && rep.week_end
                    == week_end_of(t) && r@ == summary_text(rep)
                    && rep.total_project_time_minutes == sum_where(
                    self.event_manager.records(),
                    project_in(rep.week_start, rep.week_end),
                ) && rep.total_non_project_time_minutes == sum_where(
                    self.event_manager.records(),
                    non_project_in(rep.week_start, rep.week_end),
                ) && is_breakdown(
                    rep.project_breakdown@,
                    self.event_manager.records(),
                    name_table(self.project_manager.projects()),
                    rep.week_start,
                    rep.week_end,
                ),
    {
        let time_records = self.event_manager.get_all_time_records();
        let ps = self.project_manager.get_all_projects();
        let mut project_names: HashMap<u128, String> = HashMap::new();
        let mut i: usize = 0;
        while i < ps.len()
            invariant
                0 <= i <= ps@.len(),
                ps@.len() == self.project_manager.projects().len(),
                forall|j: int| 0 <= j < ps@.len() ==> *ps@[j] == #[trigger] self.project_manager.projects()[j],
                project_names@ == name_table(self.project_manager.projects().subrange(0, i as int)),
            decreases ps@.len() - i,
        {
            proof {
                assert(self.project_manager.projects().subrange(0, i + 1).drop_last()
                    =~= self.project_manager.projects().subrange(0, i as int));
            }
            project_names.insert(ps[i].id, ps[i].name.clone());
            i += 1;
        }
        proof {
            assert(self.project_manager.projects().subrange(0, ps@.len() as int)
                =~= self.project_manager.projects());
        }
        let today = now();
        let records = time_records.as_slice();
        assert(deref_records(records@) == self.event_manager.records());
        if !totals_fit(records) || records.len() > i32::MAX as usize {
            return String::new();
        }
        let report = ReportGenerator::generate_weekly_report(records, &project_names, today);
        let text = ReportGenerator::generate_report_summary(&report);
        proof {
            reveal_strlit("=== 每周报表 ===\n");
            assert(summary_text(report).len() > 0);
        }
        text
    }
}

} // verus!
