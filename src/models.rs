//! The entities of the tracker: projects, events, time records and reports.
use vstd::prelude::*;

use crate::platform::{new_id, now};

verus! {

/// Nanoseconds in one second.
pub const NANOS_PER_SEC: i128 = 1_000_000_000;

/// Nanoseconds in one minute.
pub const NANOS_PER_MIN: u128 = 60_000_000_000;

/// An instant in UTC: whole seconds since the Unix epoch and the nanoseconds
/// past that second.
#[derive(Clone, Copy, Debug, PartialEq, Eq, Structural)]
pub struct Timestamp {
    pub secs: i64,
    pub nanos: u32,
}

impl Timestamp {
    /// The instant as a count of nanoseconds since the epoch.
    pub open spec fn instant(self) -> int {
        self.secs * 1_000_000_000 + self.nanos
    }

    pub fn new(secs: i64, nanos: u32) -> (r: Timestamp)
        ensures
            r.secs == secs,
            r.nanos == nanos,
    {
        Timestamp { secs, nanos }
    }

    /// The instant as nanoseconds since the epoch.
    pub fn total_nanos(&self) -> (r: i128)
        ensures
            r == self.instant(),
    {
        (self.secs as i128) * NANOS_PER_SEC + (self.nanos as i128)
    }

    /// Whether `self` comes no later than `other`.
    pub fn not_after(&self, other: &Timestamp) -> (r: bool)
        ensures
            r == (self.instant() <= other.instant()),
    {
        self.total_nanos() <= other.total_nanos()
    }

    /// Whether `self` lies in the window `[lo, hi]`, both ends included.
    pub fn within(&self, lo: &Timestamp, hi: &Timestamp) -> (r: bool)
        ensures
            r == in_window(*self, *lo, *hi),
    {
        lo.not_after(self) && self.not_after(hi)
    }
}

/// Whether `t` lies in `[lo, hi]`, both ends included.
pub open spec fn in_window(t: Timestamp, lo: Timestamp, hi: Timestamp) -> bool {
    lo.instant() <= t.instant() && t.instant() <= hi.instant()
}

/// Whole minutes from `start` to `end`, rounded down.
pub open spec fn minutes_between(start: Timestamp, end: Timestamp) -> int {
    (end.instant() - start.instant()) / (NANOS_PER_MIN as int)
}

/// Whole minutes elapsed from `start` to a strictly later `end`.
pub fn elapsed_minutes(start: &Timestamp, end: &Timestamp) -> (r: i64)
    requires
        start.instant() < end.instant(),
    ensures
        r == minutes_between(*start, *end),
{
    let diff = (end.total_nanos() - start.total_nanos()) as u128;
    let m = diff / NANOS_PER_MIN;
    assert(diff < 0x8000_0000_0000_0000_0000_0000u128);
    assert(m < 0x1000_0000_0000_0000u128) by {
        vstd::arithmetic::div_mod::lemma_div_is_ordered(
            diff as int,
            0x8000_0000_0000_0000_0000_0000int,
            60_000_000_000int,
        );
        assert(0x8000_0000_0000_0000_0000_0000int / 60_000_000_000int < 0x1000_0000_0000_0000int);
    }
    m as i64
}

/// A project that time can be booked against.
#[derive(Debug)]
pub struct Project {
    pub id: u128,
    pub name: String,
    pub description: Option<String>,
    pub created_at: Timestamp,
    pub is_active: bool,
}

/// An exact copy of an optional string.
pub fn copy_text(s: &Option<String>) -> (r: Option<String>)
    ensures
        r == *s,
{
    match s {
        Some(t) => Some(t.clone()),
        None => None,
    }
}

impl Project {
    /// A new, inactive project with a fresh random id, created now.
    pub fn new(name: String, description: Option<String>) -> (r: Project)
        ensures
            r.name == name,
            r.description == description,
            !r.is_active,
    {
        Project { id: new_id(), name, description, created_at: now(), is_active: false }
    }

    pub fn set_active(&mut self, active: bool)
        ensures
            *final(self) == (Project { is_active: active, ..*old(self) }),
    {
        self.is_active = active;
    }

    /// An exact copy of the project.
    pub fn duplicate(&self) -> (r: Project)
        ensures
            r == *self,
    {
        Project {
            id: self.id,
            name: self.name.clone(),
            description: copy_text(&self.description),
            created_at: self.created_at,
            is_active: self.is_active,
        }
    }
}

/// Whether an event belongs to a project, and to which.
#[derive(Clone, Copy, Debug, PartialEq, Eq, Structural)]
pub enum EventType {
    ProjectRelated(u128),
    NonProject,
}

impl EventType {
    /// The project id carried by the kind, if any.
    pub open spec fn project_of(self) -> Option<u128> {
        match self {
            EventType::ProjectRelated(id) => Some(id),
            EventType::NonProject => None,
        }
    }

    pub fn project_id(&self) -> (r: Option<u128>)
        ensures
            r == self.project_of(),
    {
        match self {
            EventType::ProjectRelated(id) => Some(*id),
            EventType::NonProject => None,
        }
    }
}

/// An interval of work; active while it has no end time.
#[derive(Debug)]
pub struct Event {
    pub id: u128,
    pub title: String,
    pub description: Option<String>,
    pub event_type: EventType,
    pub start_time: Timestamp,
    pub end_time: Option<Timestamp>,
    pub created_at: Timestamp,
}

impl Event {
    /// A new active event with a fresh random id, created now.
    pub fn new(
        title: String,
        description: Option<String>,
        event_type: EventType,
        start_time: Timestamp,
    ) -> (r: Event)
        ensures
            r.title == title,
            r.description == description,
            r.event_type == event_type,
            r.start_time == start_time,
            r.end_time.is_none(),
    {
        Event {
            id: new_id(),
            title,
            description,
            event_type,
            start_time,
            end_time: None,
            created_at: now(),
        }
    }

    pub fn set_end_time(&mut self, end_time: Timestamp)
        ensures
            *final(self) == (Event { end_time: Some(end_time), ..*old(self) }),
    {
        self.end_time = Some(end_time);
    }

    /// The time from start to end in nanoseconds, once the event has ended.
    pub fn duration(&self) -> (r: Option<i128>)
        ensures
            r == (match self.end_time {
                Some(e) => Some((e.instant() - self.start_time.instant()) as i128),
                None => None::<i128>,
            }),
    {
        match self.end_time {
            Some(e) => Some(e.total_nanos() - self.start_time.total_nanos()),
            None => None,
        }
    }

    pub fn is_completed(&self) -> (r: bool)
        ensures
            r == self.end_time.is_some(),
    {
        self.end_time.is_some()
    }

    /// An exact copy of the event.
    pub fn duplicate(&self) -> (r: Event)
        ensures
            r == *self,
    {
        Event {
            id: self.id,
            title: self.title.clone(),
            description: copy_text(&self.description),
            event_type: self.event_type,
            start_time: self.start_time,
            end_time: self.end_time,
            created_at: self.created_at,
        }
    }
}

/// The time booked by one completed event.
#[derive(Clone, Copy, Debug, PartialEq, Eq, Structural)]
pub struct TimeRecord {
    pub id: u128,
    pub event_id: u128,
    pub project_id: Option<u128>,
    pub start_time: Timestamp,
    pub end_time: Timestamp,
    pub duration_minutes: i64,
    pub created_at: Timestamp,
}

impl TimeRecord {
    /// A record of the interval `[start_time, end_time]`, with a fresh random
    /// id, created now.
    pub fn new(
        event_id: u128,
        project_id: Option<u128>,
        start_time: Timestamp,
        end_time: Timestamp,
    ) -> (r: TimeRecord)
        requires
            start_time.instant() < end_time.instant(),
        ensures
            r.event_id == event_id,
            r.project_id == project_id,
            r.start_time == start_time,
            r.end_time == end_time,
            r.duration_minutes == minutes_between(start_time, end_time),
    {
        TimeRecord {
            id: new_id(),
            event_id,
            project_id,
            start_time,
            end_time,
            duration_minutes: elapsed_minutes(&start_time, &end_time),
            created_at: now(),
        }
    }
}

/// Time booked against one project over a window.
#[derive(Debug)]
pub struct ProjectTimeBreakdown {
    pub project_id: u128,
    pub project_name: String,
    pub total_time_minutes: i64,
    pub event_count: i32,
}

/// The totals of one week.
#[derive(Debug)]
pub struct WeeklyReport {
    pub id: u128,
    pub week_start: Timestamp,
    pub week_end: Timestamp,
    pub total_project_time_minutes: i64,
    pub total_non_project_time_minutes: i64,
    pub project_breakdown: Vec<ProjectTimeBreakdown>,
    pub generated_at: Timestamp,
}

impl WeeklyReport {
    /// An empty report of the given week, with a fresh random id, made now.
    pub fn new(week_start: Timestamp, week_end: Timestamp) -> (r: WeeklyReport)
        ensures
            r.week_start == week_start,
            r.week_end == week_end,
            r.total_project_time_minutes == 0,
            r.total_non_project_time_minutes == 0,
            r.project_breakdown@.len() == 0,
    {
        WeeklyReport {
            id: new_id(),
            week_start,
            week_end,
            total_project_time_minutes: 0,
            total_non_project_time_minutes: 0,
            project_breakdown: Vec::new(),
            generated_at: now(),
        }
    }
}

/// Why an operation of the registry or the ledger was refused.
#[derive(Clone, Copy, Debug, PartialEq, Eq, Structural)]
pub enum TrackerError {
    /// The id names no project, event or time record.
    NotFound,
    /// The event already has an end time.
    AlreadyCompleted,
    /// The end time does not come strictly after the start time.
    InvalidRange,
    /// No project is current.
    NoActiveProject,
}

impl TrackerError {
    /// The message shown to the user.
    pub fn message(&self) -> (r: String)
        ensures
            r@ == match *self {
                TrackerError::NotFound => "不存在"@,
                TrackerError::AlreadyCompleted => "事件已经结束"@,
                TrackerError::InvalidRange => "结束时间必须晚于开始时间"@,
                TrackerError::NoActiveProject => "没有当前活动项目"@,
            },
    {
        match self {
            TrackerError::NotFound => String::from_str("不存在"),
            TrackerError::AlreadyCompleted => String::from_str("事件已经结束"),
            TrackerError::InvalidRange => String::from_str("结束时间必须晚于开始时间"),
            TrackerError::NoActiveProject => String::from_str("没有当前活动项目"),
        }
    }
}

} // verus!
