//! Snapshots of the registry and the ledger, their integrity check, and the
//! paths of the files they are kept in.
use vstd::prelude::*;

use crate::event_manager::EventManager;
use crate::ids::holds_id;
use crate::models::{Event, EventType, Project, TimeRecord, WeeklyReport};
use crate::models::{elapsed_minutes, minutes_between, Timestamp};
use crate::platform::{format_id, format_time, id_text, time_text};
use crate::project_manager::{distinct_project_ids, holds_project, ProjectManager};
use crate::text::{int_text, push_int};

verus! {

/// Everything that is saved: all projects, events and time records.
pub struct AppData {
    pub projects: Vec<Project>,
    pub events: Vec<Event>,
    pub time_records: Vec<TimeRecord>,
    pub weekly_reports: Vec<WeeklyReport>,
}

impl AppData {
    pub fn new() -> (r: AppData)
        ensures
            r.projects@.len() == 0,
            r.events@.len() == 0,
            r.time_records@.len() == 0,
            r.weekly_reports@.len() == 0,
    {
        AppData {
            projects: Vec::new(),
            events: Vec::new(),
            time_records: Vec::new(),
            weekly_reports: Vec::new(),
        }
    }

    /// A snapshot of the registry and the ledger; reports are left out, as
    /// they can be made again.
    pub fn from_managers(project_manager: &ProjectManager, event_manager: &EventManager) -> (r:
        AppData)
        ensures
            r.projects@ == project_manager.projects(),
            r.events@ == event_manager.events(),
            r.time_records@ == event_manager.records(),
            r.weekly_reports@.len() == 0,
    {
        let ps = project_manager.get_all_projects();
        let mut projects: Vec<Project> = Vec::new();
        let mut i: usize = 0;
        while i < ps.len()
            invariant
                0 <= i <= ps@.len(),
                ps@.len() == project_manager.projects().len(),
                forall|j: int| 0 <= j < ps@.len() ==> *ps@[j] == #[trigger] project_manager.projects()[j],
                projects@ == project_manager.projects().subrange(0, i as int),
            decreases ps@.len() - i,
        {
            projects.push(ps[i].duplicate());
            assert(projects@ =~= project_manager.projects().subrange(0, i + 1));
            i += 1;
        }
        assert(projects@ =~= project_manager.projects());
        let es = event_manager.get_all_events();
        let mut events: Vec<Event> = Vec::new();
        let mut i: usize = 0;
        while i < es.len()
            invariant
                0 <= i <= es@.len(),
                es@.map_values(|e: &Event| *e) == event_manager.events(),
                events@ == event_manager.events().subrange(0, i as int),
            decreases es@.len() - i,
        {
            assert(*es@[i as int] == event_manager.events()[i as int]);
            events.push(es[i].duplicate());
            assert(events@ =~= event_manager.events().subrange(0, i + 1));
            i += 1;
        }
        assert(events@ =~= event_manager.events());
        let rs = event_manager.get_all_time_records();
        let mut time_records: Vec<TimeRecord> = Vec::new();
        let mut i: usize = 0;
        while i < rs.len()
            invariant
                0 <= i <= rs@.len(),
                rs@.map_values(|t: &TimeRecord| *t) == event_manager.records(),
                time_records@ == event_manager.records().subrange(0, i as int),
            decreases rs@.len() - i,
        {
            assert(*rs@[i as int] == event_manager.records()[i as int]);
            time_records.push(*rs[i]);
            assert(time_records@ =~= event_manager.records().subrange(0, i + 1));
            i += 1;
        }
        assert(time_records@ =~= event_manager.records());
        AppData { projects, events, time_records, weekly_reports: Vec::new() }
    }
}

impl Default for AppData {
    fn default() -> (r: AppData)
        ensures
            r.projects@.len() == 0,
            r.events@.len() == 0,
            r.time_records@.len() == 0,
            r.weekly_reports@.len() == 0,
    {
        AppData::new()
    }
}

/// Whether one of the first `n` ids of `ids` is `id`.
pub open spec fn seen_before(ids: Seq<u128>, n: int, id: u128) -> bool {
    exists|j: int| 0 <= j < n && ids[j] == id
}

/// The ids of some projects.
pub open spec fn project_ids(ps: Seq<Project>) -> Seq<u128> {
    ps.map_values(|p: Project| p.id)
}

/// The ids of some events.
pub open spec fn event_ids(es: Seq<Event>) -> Seq<u128> {
    es.map_values(|e: Event| e.id)
}

/// The ids of some time records.
pub open spec fn record_ids(rs: Seq<TimeRecord>) -> Seq<u128> {
    rs.map_values(|r: TimeRecord| r.id)
}

/// The problems of the first `n` projects: each id that an earlier project
/// already has.
pub open spec fn project_issues(ps: Seq<Project>, n: nat) -> Seq<Seq<char>>
    decreases n,
{
    if n == 0 {
        Seq::empty()
    } else {
        let i = n - 1;
        project_issues(ps, (n - 1) as nat) + if seen_before(project_ids(ps), i, ps[i].id) {
            seq!["项目ID重复: "@ + id_text(ps[i].id)]
        } else {
            Seq::empty()
        }
    }
}

/// The problems of the first `n` events: an id that an earlier event
/// already has, and a project that `ps` does not hold.
pub open spec fn event_issues(ps: Seq<Project>, es: Seq<Event>, n: nat) -> Seq<Seq<char>>
    decreases n,
{
    if n == 0 {
        Seq::empty()
    } else {
        let i = n - 1;
        let e = es[i];
        event_issues(ps, es, (n - 1) as nat) + (if seen_before(event_ids(es), i, e.id) {
            seq!["事件ID重复: "@ + id_text(e.id)]
        } else {
            Seq::empty()
        }) + match e.event_type {
            EventType::ProjectRelated(pid) => if project_ids(ps).contains(pid) {
                Seq::empty()
            } else {
                seq!["事件引用的项目不存在: 事件ID "@ + id_text(e.id) + ", 项目ID "@ + id_text(pid)]
            },
            EventType::NonProject => Seq::empty(),
        }
    }
}

/// The problems of the first `n` time records: an id that an earlier record
/// already has, an event that `es` does not hold, and a project that `ps`
/// does not hold.
pub open spec fn record_issues(
    ps: Seq<Project>,
    es: Seq<Event>,
    rs: Seq<TimeRecord>,
    n: nat,
) -> Seq<Seq<char>>
    decreases n,
{
    if n == 0 {
        Seq::empty()
    } else {
        let i = n - 1;
        let r = rs[i];
        record_issues(ps, es, rs, (n - 1) as nat) + (if seen_before(record_ids(rs), i, r.id) {
            seq!["时间记录ID重复: "@ + id_text(r.id)]
        } else {
            Seq::empty()
        }) + (if event_ids(es).contains(r.event_id) {
            Seq::empty()
        } else {
            seq!["时间记录引用的事件不存在: 记录ID "@ + id_text(r.id) + ", 事件ID "@ + id_text(r.event_id)]
        }) + match r.project_id {
            Some(pid) => if project_ids(ps).contains(pid) {
                Seq::empty()
            } else {
                seq!["时间记录引用的项目不存在: 记录ID "@ + id_text(r.id) + ", 项目ID "@ + id_text(pid)]
            },
            None => Seq::empty(),
        }
    }
}

/// Every problem of a snapshot, projects first, then events, then records.
pub open spec fn integrity_issues(d: AppData) -> Seq<Seq<char>> {
    project_issues(d.projects@, d.projects@.len())
        + event_issues(d.projects@, d.events@, d.events@.len())
        + record_issues(d.projects@, d.events@, d.time_records@, d.time_records@.len())
}

/// The text of each message.
pub open spec fn texts(v: Seq<String>) -> Seq<Seq<char>> {
    v.map_values(|s: String| s@)
}

/// A message made of a head and an id.
fn id_message(head: &str, id: u128) -> (r: String)
    ensures
        r@ == head@ + id_text(id),
{
    let mut s = String::from_str(head);
    let t = format_id(id);
    s.append(t.as_str());
    s
}

/// A message made of a head, an id, a middle and a second id.
fn pair_message(head: &str, id: u128, middle: &str, other: u128) -> (r: String)
    ensures
        r@ == head@ + id_text(id) + middle@ + id_text(other),
{
    let mut s = id_message(head, id);
    s.append(middle);
    let t = format_id(other);
    s.append(t.as_str());
    s
}

/// Appends a message to a list, keeping the texts in step.
fn push_message(v: &mut Vec<String>, m: String)
    ensures
        texts(final(v)@) == texts(old(v)@).push(m@),
{
    v.push(m);
    assert(texts(final(v)@) =~= texts(old(v)@).push(m@));
}

/// An instant as `2024-01-08 12:00:00`.
pub open spec fn csv_time(t: Timestamp) -> Seq<char> {
    time_text(t.secs as int, t.nanos as int, "%Y-%m-%d %H:%M:%S"@)
}

/// Whole minutes from `start` to `end`, rounded toward zero.
pub open spec fn signed_minutes(start: Timestamp, end: Timestamp) -> int {
    if start.instant() <= end.instant() {
        minutes_between(start, end)
    } else {
        -minutes_between(end, start)
    }
}

/// The name of the project of `ps` with id `id`, if there is one.
pub open spec fn name_in(ps: Seq<Project>, id: u128) -> Option<Seq<char>> {
    if holds_project(ps, id) {
        Some(ps[choose|i: int| 0 <= i < ps.len() && (#[trigger] ps[i]).id == id].name@)
    } else {
        None
    }
}

/// The CSV row of a project.
pub open spec fn csv_project_row(p: Project) -> Seq<char> {
    "项目,\""@ + p.name@ + "\",\""@ + (match p.description {
        Some(d) => d@,
        None => Seq::empty(),
    }) + "\",N/A,N/A,N/A,N/A\n"@
}

/// The CSV row of an event; `ps` gives project names.
pub open spec fn csv_event_row(ps: Seq<Project>, e: Event) -> Seq<char> {
    let project = match e.event_type {
        EventType::ProjectRelated(pid) => match name_in(ps, pid) {
            Some(n) => n,
            None => "未知项目"@,
        },
        EventType::NonProject => "项目外"@,
    };
    let end = match e.end_time {
        Some(t) => csv_time(t),
        None => "N/A"@,
    };
    let duration = match e.end_time {
        Some(t) => int_text(signed_minutes(e.start_time, t)),
        None => "进行中"@,
    };
    "事件,\""@ + e.title@ + "\",\""@ + (match e.description {
        Some(d) => d@,
        None => Seq::empty(),
    }) + "\",\""@ + project + "\",\""@ + csv_time(e.start_time) + "\",\""@ + end + "\","@ + duration
        + "\n"@
}

/// The CSV row of a time record; `ps` gives project names.
pub open spec fn csv_record_row(ps: Seq<Project>, r: TimeRecord) -> Seq<char> {
    let project = match r.project_id {
        Some(pid) => match name_in(ps, pid) {
            Some(n) => n,
            None => "项目外"@,
        },
        None => "项目外"@,
    };
    "时间记录,N/A,N/A,\""@ + project + "\",\""@ + csv_time(r.start_time) + "\",\""@ + csv_time(
        r.end_time,
    ) + "\","@ + int_text(r.duration_minutes as int) + "\n"@
}

/// The rows of the first `n` projects.
pub open spec fn csv_project_rows(ps: Seq<Project>, n: int) -> Seq<char>
    decreases n,
{
    if n <= 0 {
        Seq::empty()
    } else {
        csv_project_rows(ps, n - 1) + csv_project_row(ps[n - 1])
    }
}

/// The rows of the first `n` events.
pub open spec fn csv_event_rows(ps: Seq<Project>, es: Seq<Event>, n: int) -> Seq<char>
    decreases n,
{
    if n <= 0 {
        Seq::empty()
    } else {
        csv_event_rows(ps, es, n - 1) + csv_event_row(ps, es[n - 1])
    }
}

/// The rows of the first `n` time records.
pub open spec fn csv_record_rows(ps: Seq<Project>, rs: Seq<TimeRecord>, n: int) -> Seq<char>
    decreases n,
{
    if n <= 0 {
        Seq::empty()
    } else {
        csv_record_rows(ps, rs, n - 1) + csv_record_row(ps, rs[n - 1])
    }
}

/// The CSV export of the registry and the ledger: a header, then a row for
/// each project, each event and each time record.
pub open spec fn csv_text(ps: Seq<Project>, es: Seq<Event>, rs: Seq<TimeRecord>) -> Seq<char> {
    "类型,名称,描述,项目,开始时间,结束时间,持续时间(分钟)\n"@ + csv_project_rows(ps, ps.len() as int)
        + csv_event_rows(ps, es, es.len() as int) + csv_record_rows(ps, rs, rs.len() as int)
}

fn push_optional(s: &mut String, d: &Option<String>)
    ensures
        final(s)@ == old(s)@ + match *d {
            Some(t) => t@,
            None => Seq::empty(),
        },
{
    match d {
        Some(t) => s.append(t.as_str()),
        None => {
            assert(s@ =~= s@ + Seq::<char>::empty());
        },
    }
}

fn push_csv_time(s: &mut String, t: &Timestamp)
    ensures
        final(s)@ == old(s)@ + csv_time(*t),
{
    let text = format_time(t, "%Y-%m-%d %H:%M:%S");
    s.append(text.as_str());
}

/// Appends the name of the project `pid` of the registry, or `fallback`.
fn push_project_name(s: &mut String, pm: &ProjectManager, pid: u128, fallback: &str)
    requires
        pm.wf(),
    ensures
        final(s)@ == old(s)@ + match name_in(pm.projects(), pid) {
            Some(n) => n,
            None => fallback@,
        },
{
    match pm.get_project(pid) {
        Some(p) => {
            proof {
                let ps = pm.projects();
                let i = choose|i: int| 0 <= i < ps.len() && (#[trigger] ps[i]).id == pid;
                let j = choose|j: int| 0 <= j < ps.len() && ps[j] == *p;
                assert(ps[j].id == pid);
                assert(distinct_project_ids(ps));
                if i != j {
                    assert(ps[i].id != ps[j].id);
                }
            }
            s.append(p.name.as_str());
        },
        None => s.append(fallback),
    }
}

fn push_event_minutes(s: &mut String, e: &Event)
    ensures
        final(s)@ == old(s)@ + match e.end_time {
            Some(t) => int_text(signed_minutes(e.start_time, t)),
            None => "进行中"@,
        },
{
    match e.end_time {
        Some(t) => {
            let m: i64 = if e.start_time.not_after(&t) {
                if e.start_time.total_nanos() < t.total_nanos() {
                    elapsed_minutes(&e.start_time, &t)
                } else {
                    0
                }
            } else {
                -elapsed_minutes(&t, &e.start_time)
            };
            proof {
                if e.start_time.instant() == t.instant() {
                    assert(minutes_between(e.start_time, t) == 0);
                }
            }
            push_int(s, m as i128);
        },
        None => s.append("进行中"),
    }
}

#[verifier::rlimit(60)]
fn push_event_row(s: &mut String, pm: &ProjectManager, e: &Event)
    requires
        pm.wf(),
    ensures
        final(s)@ == old(s)@ + csv_event_row(pm.projects(), *e),
{
    let ghost before = s@;
    s.append("事件,\"");
    s.append(e.title.as_str());
    s.append("\",\"");
    push_optional(s, &e.description);
    s.append("\",\"");
    match e.event_type {
        EventType::ProjectRelated(pid) => push_project_name(s, pm, pid, "未知项目"),
        EventType::NonProject => s.append("项目外"),
    }
    s.append("\",\"");
    push_csv_time(s, &e.start_time);
    s.append("\",\"");
    match e.end_time {
        Some(t) => push_csv_time(s, &t),
        None => s.append("N/A"),
    }
    s.append("\",");
    push_event_minutes(s, e);
    s.append("\n");
    assert(s@ =~= before + csv_event_row(pm.projects(), *e));
}

/// The CSV export of the registry and the ledger.
pub fn export_csv_content(project_manager: &ProjectManager, event_manager: &EventManager) -> (r:
    String)
    requires
        project_manager.wf(),
    ensures
        r@ == csv_text(project_manager.projects(), event_manager.events(), event_manager.records()),
{
    let ghost ps = project_manager.projects();
    let ghost es = event_manager.events();
    let ghost rs = event_manager.records();
    let mut s = String::from_str("类型,名称,描述,项目,开始时间,结束时间,持续时间(分钟)\n");
    let ghost head = s@;
    let projects = project_manager.get_all_projects();
    let mut i: usize = 0;
    assert(s@ =~= head + csv_project_rows(ps, 0));
    while i < projects.len()
        invariant
            0 <= i <= projects@.len(),
            projects@.len() == ps.len(),
            ps == project_manager.projects(),
            forall|j: int| 0 <= j < projects@.len() ==> *projects@[j] == #[trigger] ps[j],
            s@ == head + csv_project_rows(ps, i as int),
        decreases projects@.len() - i,
    {
        let p = projects[i];
        s.append("项目,\"");
        s.append(p.name.as_str());
        s.append("\",\"");
        push_optional(&mut s, &p.description);
        s.append("\",N/A,N/A,N/A,N/A\n");
        assert(s@ =~= head + csv_project_rows(ps, i + 1));
        i += 1;
    }
    let ghost after_projects = s@;
    let events = event_manager.get_all_events();
    let mut i: usize = 0;
    assert(s@ =~= after_projects + csv_event_rows(ps, es, 0));
    while i < events.len()
        invariant
            0 <= i <= events@.len(),
            project_manager.wf(),
            ps == project_manager.projects(),
            events@.map_values(|e: &Event| *e) == es,
            s@ == after_projects + csv_event_rows(ps, es, i as int),
        decreases events@.len() - i,
    {
        let e = events[i];
        assert(*e == es[i as int]);
        push_event_row(&mut s, project_manager, e);
        assert(s@ =~= after_projects + csv_event_rows(ps, es, i + 1));
        i += 1;
    }
    let ghost after_events = s@;
    let records = event_manager.get_all_time_records();
    let mut i: usize = 0;
    assert(s@ =~= after_events + csv_record_rows(ps, rs, 0));
    while i < records.len()
        invariant
            0 <= i <= records@.len(),
            project_manager.wf(),
            ps == project_manager.projects(),
            records@.map_values(|t: &TimeRecord| *t) == rs,
            s@ == after_events + csv_record_rows(ps, rs, i as int),
        decreases records@.len() - i,
    {
        let r = records[i];
        assert(*r == rs[i as int]);
        let ghost before = s@;
        s.append("时间记录,N/A,N/A,\"");
        match r.project_id {
            Some(pid) => push_project_name(&mut s, project_manager, pid, "项目外"),
            None => s.append("项目外"),
        }
        s.append("\",\"");
        push_csv_time(&mut s, &r.start_time);
        s.append("\",\"");
        push_csv_time(&mut s, &r.end_time);
        s.append("\",");
        push_int(&mut s, r.duration_minutes as i128);
        s.append("\n");
        assert(s@ =~= before + csv_record_row(ps, *r));
        assert(s@ =~= after_events + csv_record_rows(ps, rs, i + 1));
        i += 1;
    }
    assert(s@ =~= csv_text(ps, es, rs));
    s
}

/// Where the data files are kept.
pub struct Storage {
    data_dir: String,
}

impl Storage {
    pub closed spec fn dir(&self) -> Seq<char> {
        self.data_dir@
    }

    /// A store rooted at `data_dir`; the directory itself is made by the
    /// caller.
    pub fn new(data_dir: String) -> (r: Storage)
        ensures
            r.dir() == data_dir@,
    {
        Storage { data_dir }
    }

    pub fn data_dir(&self) -> (r: &String)
        ensures
            r@ == self.dir(),
    {
        &self.data_dir
    }

    /// The path of the data file.
    pub fn get_data_file_path(&self) -> (r: String)
        ensures
            r@ == self.dir() + "/app_data.json"@,
    {
        let mut s = self.data_dir.clone();
        s.append("/app_data.json");
        s
    }

    /// The path of the backup made at `timestamp`.
    pub fn get_backup_file_path(&self, timestamp: &str) -> (r: String)
        ensures
            r@ == self.dir() + "/backup_"@ + timestamp@ + ".json"@,
    {
        let mut s = self.data_dir.clone();
        s.append("/backup_");
        s.append(timestamp);
        s.append(".json");
        s
    }

    /// The problems of a snapshot: repeated project, event and record ids,
    /// events of unknown projects, and records of unknown events or
    /// projects, one message each.
    pub fn check_data_integrity(&self, app_data: &AppData) -> (r: Vec<String>)
        ensures
            texts(r@) == integrity_issues(*app_data),
    {
        let ps = &app_data.projects;
        let es = &app_data.events;
        let rs = &app_data.time_records;
        let mut issues: Vec<String> = Vec::new();
        let mut pids: Vec<u128> = Vec::new();
        let mut i: usize = 0;
        while i < ps.len()
            invariant
                0 <= i <= ps@.len(),
                pids@ == project_ids(ps@).subrange(0, i as int),
                texts(issues@) == project_issues(ps@, i as nat),
            decreases ps@.len() - i,
        {
            let id = ps[i].id;
            let seen = holds_id(&pids, id);
            proof {
                assert(seen == seen_before(project_ids(ps@), i as int, id)) by {
                    if seen {
                        let j = choose|j: int| 0 <= j < pids@.len() && pids@[j] == id;
                        assert(project_ids(ps@)[j] == id);
                    }
                    if seen_before(project_ids(ps@), i as int, id) {
                        let j = choose|j: int| 0 <= j < i && project_ids(ps@)[j] == id;
                        assert(pids@[j] == id);
                    }
                }
            }
            if seen {
                push_message(&mut issues, id_message("项目ID重复: ", id));
            }
            pids.push(id);
            assert(pids@ =~= project_ids(ps@).subrange(0, i + 1));
            assert(texts(issues@) =~= project_issues(ps@, (i + 1) as nat));
            i += 1;
        }
        assert(pids@ =~= project_ids(ps@));
        let ghost after_projects = texts(issues@);
        let mut eids: Vec<u128> = Vec::new();
        let mut i: usize = 0;
        assert(texts(issues@) =~= after_projects + event_issues(ps@, es@, 0));
        while i < es.len()
            invariant
                0 <= i <= es@.len(),
                pids@ == project_ids(ps@),
                eids@ == event_ids(es@).subrange(0, i as int),
                texts(issues@) == after_projects + event_issues(ps@, es@, i as nat),
            decreases es@.len() - i,
        {
            let e = &es[i];
            let id = e.id;
            let seen = holds_id(&eids, id);
            proof {
                assert(seen == seen_before(event_ids(es@), i as int, id)) by {
                    if seen {
                        let j = choose|j: int| 0 <= j < eids@.len() && eids@[j] == id;
                        assert(event_ids(es@)[j] == id);
                    }
                    if seen_before(event_ids(es@), i as int, id) {
                        let j = choose|j: int| 0 <= j < i && event_ids(es@)[j] == id;
                        assert(eids@[j] == id);
                    }
                }
            }
            if seen {
                push_message(&mut issues, id_message("事件ID重复: ", id));
            }
            eids.push(id);
            match e.event_type {
                EventType::ProjectRelated(pid) => {
                    if !holds_id(&pids, pid) {
                        push_message(
                            &mut issues,
                            pair_message("事件引用的项目不存在: 事件ID ", id, ", 项目ID ", pid),
                        );
                    }
                },
                EventType::NonProject => {},
            }
            assert(eids@ =~= event_ids(es@).subrange(0, i + 1));
            assert(texts(issues@) =~= after_projects + event_issues(ps@, es@, (i + 1) as nat));
            i += 1;
        }
        assert(eids@ =~= event_ids(es@));
        let ghost after_events = texts(issues@);
        let mut rids: Vec<u128> = Vec::new();
        let mut i: usize = 0;
        assert(texts(issues@) =~= after_events + record_issues(ps@, es@, rs@, 0));
        while i < rs.len()
            invariant
                0 <= i <= rs@.len(),
                pids@ == project_ids(ps@),
                eids@ == event_ids(es@),
                rids@ == record_ids(rs@).subrange(0, i as int),
                texts(issues@) == after_events + record_issues(ps@, es@, rs@, i as nat),
            decreases rs@.len() - i,
        {
            let r = rs[i];
            let seen = holds_id(&rids, r.id);
            proof {
                assert(seen == seen_before(record_ids(rs@), i as int, r.id)) by {
                    if seen {
                        let j = choose|j: int| 0 <= j < rids@.len() && rids@[j] == r.id;
                        assert(record_ids(rs@)[j] == r.id);
                    }
                    if seen_before(record_ids(rs@), i as int, r.id) {
                        let j = choose|j: int| 0 <= j < i && record_ids(rs@)[j] == r.id;
                        assert(rids@[j] == r.id);
                    }
                }
            }
            if seen {
                push_message(&mut issues, id_message("时间记录ID重复: ", r.id));
            }
            rids.push(r.id);
            if !holds_id(&eids, r.event_id) {
                push_message(
                    &mut issues,
                    pair_message("时间记录引用的事件不存在: 记录ID ", r.id, ", 事件ID ", r.event_id),
                );
            }
            match r.project_id {
                Some(pid) => {
                    if !holds_id(&pids, pid) {
                        push_message(
                            &mut issues,
                            pair_message("时间记录引用的项目不存在: 记录ID ", r.id, ", 项目ID ", pid),
                        );
                    }
                },
                None => {},
            }
            assert(rids@ =~= record_ids(rs@).subrange(0, i + 1));
            assert(texts(issues@) =~= after_events + record_issues(ps@, es@, rs@, (i + 1) as nat));
            i += 1;
        }
        assert(texts(issues@) =~= integrity_issues(*app_data));
        issues
    }
}

} // verus!
