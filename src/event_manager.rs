//! The ledger of events and of the time records that completed events leave.
use vstd::prelude::*;

use crate::ids::fresh_id;
use crate::models::{minutes_between, in_window, Event, EventType, TimeRecord, Timestamp, TrackerError};
use crate::platform::{new_id, now};
use crate::seqs::{
    holds_key, keys_distinct, lemma_deref_push, lemma_distinct_push, lemma_distinct_remove,
    lemma_distinct_update, lemma_filter_keeps_all, lemma_filter_step, lemma_full_prefix,
    lemma_remove_is_filter,
};

verus! {

pub open spec fn event_key() -> spec_fn(Event) -> u128 {
    |e: Event| e.id
}

pub open spec fn record_key() -> spec_fn(TimeRecord) -> u128 {
    |r: TimeRecord| r.id
}

pub open spec fn record_event_key() -> spec_fn(TimeRecord) -> u128 {
    |r: TimeRecord| r.event_id
}

/// Whether `r` is the record that completing `e` leaves: the same event,
/// project, start and end, and the whole minutes in between.
pub open spec fn record_of(e: Event, r: TimeRecord) -> bool {
    &&& r.event_id == e.id
    &&& e.end_time == Some(r.end_time)
    &&& r.start_time == e.start_time
    &&& r.project_id == e.event_type.project_of()
    &&& r.start_time.instant() < r.end_time.instant()
    &&& r.duration_minutes == minutes_between(r.start_time, r.end_time)
}

/// Whether some record of `rs` is the record of `e`.
pub open spec fn recorded(rs: Seq<TimeRecord>, e: Event) -> bool {
    exists|j: int| 0 <= j < rs.len() && record_of(e, #[trigger] rs[j])
}

/// Whether some event of `es` left the record `r`.
pub open spec fn produced_by(es: Seq<Event>, r: TimeRecord) -> bool {
    exists|i: int| 0 <= i < es.len() && record_of(#[trigger] es[i], r)
}

/// Whether `es` holds an event with id `id`.
pub open spec fn holds_event(es: Seq<Event>, id: u128) -> bool {
    holds_key(es, event_key(), id)
}

/// `e` with its title and description changed as `update_event` does.
pub open spec fn retitled(e: Event, title: Option<String>, description: Option<String>) -> Event {
    Event {
        title: match title {
            Some(t) => t,
            None => e.title,
        },
        description: if description.is_some() {
            description
        } else {
            e.description
        },
        ..e
    }
}

/// The event of `m` with id `id`, for a ledger that holds one.
pub open spec fn event_with(m: EventManager, id: u128) -> Event {
    m.events()[choose|i: int| 0 <= i < m.events().len() && (#[trigger] m.events()[i]).id == id]
}

/// Whether `b` is the ledger `a` after completing its active event `id`:
/// the event takes the end time of one new record, and that record is the
/// event's.
pub open spec fn completed_in(a: EventManager, b: EventManager, id: u128) -> bool {
    &&& a.has(id)
    &&& {
        let i = choose|i: int| 0 <= i < a.events().len() && (#[trigger] a.events()[i]).id == id;
        let e = a.events()[i];
        let rec = b.records().last();
        &&& e.end_time.is_none()
        &&& b.records().len() == a.records().len() + 1
        &&& b.records().drop_last() == a.records()
        &&& b.events() == a.events().update(i, Event { end_time: Some(rec.end_time), ..e })
        &&& record_of(b.events()[i], rec)
    }
}

/// The queries that pick events.
enum EventFilter {
    Active,
    Completed,
    OfProject(u128),
    NonProject,
    StartsWithin(Timestamp, Timestamp),
}

spec fn event_selected(e: Event, f: EventFilter) -> bool {
    match f {
        EventFilter::Active => e.end_time.is_none(),
        EventFilter::Completed => e.end_time.is_some(),
        EventFilter::OfProject(p) => e.event_type == EventType::ProjectRelated(p),
        EventFilter::NonProject => e.event_type == EventType::NonProject,
        EventFilter::StartsWithin(lo, hi) => in_window(e.start_time, lo, hi),
    }
}

fn event_matches(e: &Event, f: &EventFilter) -> (r: bool)
    ensures
        r == event_selected(*e, *f),
{
    match f {
        EventFilter::Active => e.end_time.is_none(),
        EventFilter::Completed => e.end_time.is_some(),
        EventFilter::OfProject(p) => match e.event_type {
            EventType::ProjectRelated(q) => q == *p,
            EventType::NonProject => false,
        },
        EventFilter::NonProject => match e.event_type {
            EventType::ProjectRelated(_) => false,
            EventType::NonProject => true,
        },
        EventFilter::StartsWithin(lo, hi) => e.start_time.within(lo, hi),
    }
}

/// The queries that pick time records.
enum RecordFilter {
    OfProject(u128),
    NonProject,
    StartsWithin(Timestamp, Timestamp),
}

spec fn record_selected(r: TimeRecord, f: RecordFilter) -> bool {
    match f {
        RecordFilter::OfProject(p) => r.project_id == Some(p),
        RecordFilter::NonProject => r.project_id.is_none(),
        RecordFilter::StartsWithin(lo, hi) => in_window(r.start_time, lo, hi),
    }
}

fn record_matches(r: &TimeRecord, f: &RecordFilter) -> (b: bool)
    ensures
        b == record_selected(*r, *f),
{
    match f {
        RecordFilter::OfProject(p) => r.project_id == Some(*p),
        RecordFilter::NonProject => r.project_id.is_none(),
        RecordFilter::StartsWithin(lo, hi) => r.start_time.within(lo, hi),
    }
}

/// The ledger: events and the time records of the completed ones.
pub struct EventManager {
    events: Vec<Event>,
    time_records: Vec<TimeRecord>,
}

impl EventManager {
    /// The events, in the order in which they were added.
    pub closed spec fn events(&self) -> Seq<Event> {
        self.events@
    }

    /// The time records, in the order in which they were made.
    pub closed spec fn records(&self) -> Seq<TimeRecord> {
        self.time_records@
    }

    /// Ids are unique; every record was left by an event of the ledger, and
    /// every completed event has left exactly one record.
    pub open spec fn wf(&self) -> bool {
        &&& keys_distinct(self.events(), event_key())
        &&& keys_distinct(self.records(), record_key())
        &&& keys_distinct(self.records(), record_event_key())
        &&& forall|j: int|
            0 <= j < self.records().len() ==> produced_by(self.events(), #[trigger] self.records()[j])
        &&& forall|i: int|
            0 <= i < self.events().len() && (#[trigger] self.events()[i]).end_time.is_some()
                ==> recorded(self.records(), self.events()[i])
    }

    pub open spec fn has(&self, id: u128) -> bool {
        holds_event(self.events(), id)
    }

    pub fn new() -> (r: EventManager)
        ensures
            r.wf(),
            r.events().len() == 0,
            r.records().len() == 0,
    {
        EventManager { events: Vec::new(), time_records: Vec::new() }
    }

    /// The index of the event with id `id`.
    fn position(&self, id: u128) -> (r: Option<usize>)
        ensures
            r matches Some(i) ==> i < self.events().len() && self.events()[i as int].id == id,
            r.is_none() <==> !self.has(id),
    {
        let mut i: usize = 0;
        while i < self.events.len()
            invariant
                0 <= i <= self.events@.len(),
                forall|j: int| 0 <= j < i ==> (#[trigger] self.events@[j]).id != id,
            decreases self.events@.len() - i,
        {
            if self.events[i].id == id {
                return Some(i);
            }
            i += 1;
        }
        None
    }

    /// An id that no event holds: `candidate` where it is free.
    fn free_event_id(&self, candidate: u128) -> (r: u128)
        ensures
            !self.has(r),
    {
        let mut taken: Vec<u128> = Vec::new();
        let mut i: usize = 0;
        while i < self.events.len()
            invariant
                0 <= i <= self.events@.len(),
                taken@.len() == i,
                forall|j: int| 0 <= j < i ==> taken@[j] == (#[trigger] self.events@[j]).id,
            decreases self.events@.len() - i,
        {
            taken.push(self.events[i].id);
            i += 1;
        }
        let id = fresh_id(&taken, candidate);
        proof {
            if self.has(id) {
                let k = choose|k: int| 0 <= k < self.events@.len() && event_key()(#[trigger] self.events@[k]) == id;
                assert(taken@[k] == id);
            }
        }
        id
    }

    /// An id that no time record holds: `candidate` where it is free.
    fn free_record_id(&self, candidate: u128) -> (r: u128)
        ensures
            !holds_key(self.records(), record_key(), r),
    {
        let mut taken: Vec<u128> = Vec::new();
        let mut i: usize = 0;
        while i < self.time_records.len()
            invariant
                0 <= i <= self.time_records@.len(),
                taken@.len() == i,
                forall|j: int| 0 <= j < i ==> taken@[j] == (#[trigger] self.time_records@[j]).id,
            decreases self.time_records@.len() - i,
        {
            taken.push(self.time_records[i].id);
            i += 1;
        }
        let id = fresh_id(&taken, candidate);
        proof {
            if holds_key(self.records(), record_key(), id) {
                let k = choose|k: int| 0 <= k < self.time_records@.len() && record_key()(#[trigger] self.time_records@[k]) == id;
                assert(taken@[k] == id);
            }
        }
        id
    }

    /// Stores a new active event of the given kind and returns its id.
    fn add_event(
        &mut self,
        title: String,
        description: Option<String>,
        event_type: EventType,
        start_time: Timestamp,
    ) -> (r: u128)
        requires
            old(self).wf(),
        ensures
            final(self).wf(),
            !old(self).has(r),
            final(self).records() == old(self).records(),
            final(self).events().drop_last() == old(self).events(),
            final(self).events().len() == old(self).events().len() + 1,
            final(self).events().last().id == r,
            final(self).events().last().title == title,
            final(self).events().last().description == description,
            final(self).events().last().event_type == event_type,
            final(self).events().last().start_time == start_time,
            final(self).events().last().end_time.is_none(),
    {
        let id = self.free_event_id(new_id());
        let e = Event {
            id,
            title,
            description,
            event_type,
            start_time,
            end_time: None,
            created_at: now(),
        };
        let ghost before = self.events@;
        self.events.push(e);
        proof {
            let s = self.events@;
            assert(s.drop_last() =~= before);
            lemma_distinct_push(before, event_key(), e);
            assert forall|j: int| 0 <= j < self.time_records@.len() implies produced_by(
                s,
                #[trigger] self.time_records@[j],
            ) by {
                let r = self.time_records@[j];
                assert(produced_by(before, r));
                let i = choose|i: int| 0 <= i < before.len() && record_of(#[trigger] before[i], r);
                assert(s[i] == before[i]);
            }
            assert forall|i: int| 0 <= i < s.len() && (#[trigger] s[i]).end_time.is_some() implies recorded(
                self.time_records@,
                s[i],
            ) by {
                assert(i < before.len());
                assert(s[i] == before[i]);
            }
        }
        id
    }

    /// Adds an active event of project `project_id`, starting at `start_time`
    /// or, when none is given, now. The project is not looked up.
    pub fn add_project_event(
        &mut self,
        title: String,
        description: Option<String>,
        project_id: u128,
        start_time: Option<Timestamp>,
    ) -> (r: u128)
        requires
            old(self).wf(),
        ensures
            final(self).wf(),
            !old(self).has(r),
            final(self).records() == old(self).records(),
            final(self).events().drop_last() == old(self).events(),
            final(self).events().len() == old(self).events().len() + 1,
            final(self).events().last().id == r,
            final(self).events().last().title == title,
            final(self).events().last().description == description,
            final(self).events().last().event_type == EventType::ProjectRelated(project_id),
            start_time matches Some(t) ==> final(self).events().last().start_time == t,
            final(self).events().last().end_time.is_none(),
    {
        let start = match start_time {
            Some(t) => t,
            None => now(),
        };
        self.add_event(title, description, EventType::ProjectRelated(project_id), start)
    }

    /// Adds an active event outside any project, starting at `start_time` or,
    /// when none is given, now.
    pub fn add_non_project_event(
        &mut self,
        title: String,
        description: Option<String>,
        start_time: Option<Timestamp>,
    ) -> (r: u128)
        requires
            old(self).wf(),
        ensures
            final(self).wf(),
            !old(self).has(r),
            final(self).records() == old(self).records(),
            final(self).events().drop_last() == old(self).events(),
            final(self).events().len() == old(self).events().len() + 1,
            final(self).events().last().id == r,
            final(self).events().last().title == title,
            final(self).events().last().description == description,
            final(self).events().last().event_type == EventType::NonProject,
            start_time matches Some(t) ==> final(self).events().last().start_time == t,
            final(self).events().last().end_time.is_none(),
    {
        let start = match start_time {
            Some(t) => t,
            None => now(),
        };
        self.add_event(title, description, EventType::NonProject, start)
    }

    /// Completes an event at `end_time` or, when none is given, now, and
    /// stores its time record. Refused, with nothing changed, for an unknown
    /// id, an event that has already ended, or an end not after the start.
    pub fn set_event_end_time(&mut self, event_id: u128, end_time: Option<Timestamp>) -> (r: Result<
        (),
        TrackerError,
    >)
        requires
            old(self).wf(),
        ensures
            final(self).wf(),
            r.is_err() ==> *final(self) == *old(self),
            r matches Err(e) ==> e != TrackerError::NoActiveProject,
            r.is_ok() ==> completed_in(*old(self), *final(self), event_id),
            (old(self).has(event_id) && event_with(*old(self), event_id).end_time.is_none()
                && end_time.is_none() && event_with(*old(self), event_id).start_time.instant() < 0)
                ==> r.is_ok(),
            r == Err::<(), TrackerError>(TrackerError::NotFound) <==> !old(self).has(event_id),
            old(self).has(event_id) ==> {
                let i = choose|i: int|
                    0 <= i < old(self).events().len() && (#[trigger] old(self).events()[i]).id
                        == event_id;
                let e = old(self).events()[i];
                &&& (r == Err::<(), TrackerError>(TrackerError::AlreadyCompleted)
                    <==> e.end_time.is_some())
                &&& e.end_time.is_none() ==> (end_time matches Some(t) ==> (r == Err::<
                    (),
                    TrackerError,
                >(TrackerError::InvalidRange) <==> t.instant() <= e.start_time.instant()))
                &&& r.is_ok() ==> {
                    let rec = final(self).records().last();
                    &&& final(self).records().drop_last() == old(self).records()
                    &&& final(self).records().len() == old(self).records().len() + 1
                    &&& final(self).events() == old(self).events().update(
                        i,
                        Event { end_time: Some(rec.end_time), ..e },
                    )
                    &&& end_time matches Some(t) ==> rec.end_time == t
                    &&& record_of(final(self).events()[i], rec)
                }
            },
    {
        let end = match end_time {
            Some(t) => t,
            None => now(),
        };
        let i = match self.position(event_id) {
            Some(i) => i,
            None => {
                return Err(TrackerError::NotFound);
            },
        };
        proof {
            let k = choose|k: int|
                0 <= k < self.events@.len() && (#[trigger] self.events@[k]).id == event_id;
            if k != i as int {
                assert(event_key()(self.events@[k]) == event_key()(self.events@[i as int]));
            }
        }
        if self.events[i].end_time.is_some() {
            return Err(TrackerError::AlreadyCompleted);
        }
        if end.not_after(&self.events[i].start_time) {
            return Err(TrackerError::InvalidRange);
        }
        let rid = self.free_record_id(new_id());
        let start = self.events[i].start_time;
        let project_id = self.events[i].event_type.project_id();
        let rec = TimeRecord {
            id: rid,
            event_id,
            project_id,
            start_time: start,
            end_time: end,
            duration_minutes: crate::models::elapsed_minutes(&start, &end),
            created_at: now(),
        };
        let ghost es = self.events@;
        let ghost rs = self.time_records@;
        let mut e = self.events.remove(i);
        e.set_end_time(end);
        self.events.insert(i, e);
        self.time_records.push(rec);
        proof {
            let es2 = self.events@;
            let rs2 = self.time_records@;
            assert(es2 =~= es.update(i as int, e));
            assert(rs2.drop_last() =~= rs);
            lemma_distinct_update(es, event_key(), i as int, e);
            lemma_distinct_push(rs, record_key(), rec);
            assert(!holds_key(rs, record_event_key(), event_id)) by {
                if holds_key(rs, record_event_key(), event_id) {
                    let j = choose|j: int| 0 <= j < rs.len() && record_event_key()(#[trigger] rs[j]) == event_id;
                    assert(produced_by(es, rs[j]));
                    let k = choose|k: int| 0 <= k < es.len() && record_of(#[trigger] es[k], rs[j]);
                    if k != i as int {
                        assert(event_key()(es[k]) == event_key()(es[i as int]));
                    }
                }
            }
            lemma_distinct_push(rs, record_event_key(), rec);
            assert(record_of(es2[i as int], rec));
            assert forall|j: int| 0 <= j < rs2.len() implies produced_by(es2, #[trigger] rs2[j]) by {
                if j < rs.len() {
                    assert(rs2[j] == rs[j]);
                    assert(produced_by(es, rs[j]));
                    let k = choose|k: int| 0 <= k < es.len() && record_of(#[trigger] es[k], rs[j]);
                    assert(k != i as int);
                    assert(es2[k] == es[k]);
                } else {
                    assert(rs2[j] == rec);
                }
            }
            assert forall|k: int| 0 <= k < es2.len() && (#[trigger] es2[k]).end_time.is_some() implies recorded(
                rs2,
                es2[k],
            ) by {
                if k == i as int {
                    assert(rs2[rs.len() as int] == rec);
                } else {
                    assert(es2[k] == es[k]);
                    assert(recorded(rs, es[k]));
                    let j = choose|j: int| 0 <= j < rs.len() && record_of(es[k], #[trigger] rs[j]);
                    assert(rs2[j] == rs[j]);
                }
            }
        }
        Ok(())
    }

    /// The event with id `event_id`, if any.
    pub fn get_event(&self, event_id: u128) -> (r: Option<&Event>)
        ensures
            r.is_some() == self.has(event_id),
            r matches Some(e) ==> e.id == event_id && self.events().contains(*e),
    {
        match self.position(event_id) {
            Some(i) => Some(&self.events[i]),
            None => None,
        }
    }

    /// All events.
    pub fn get_all_events(&self) -> (r: Vec<&Event>)
        ensures
            r@.map_values(|e: &Event| *e) == self.events(),
    {
        let mut r: Vec<&Event> = Vec::new();
        let mut i: usize = 0;
        while i < self.events.len()
            invariant
                0 <= i <= self.events@.len(),
                r@.map_values(|e: &Event| *e) == self.events@.subrange(0, i as int),
            decreases self.events@.len() - i,
        {
            proof {
                lemma_deref_push(r@, &self.events@[i as int]);
                assert(self.events@.subrange(0, i + 1) =~= self.events@.subrange(0, i as int).push(
                    self.events@[i as int],
                ));
            }
            r.push(&self.events[i]);
            i += 1;
        }
        proof {
            lemma_full_prefix(self.events@);
        }
        r
    }

    /// The events that `f` picks, in order.
    fn select_events(&self, f: EventFilter) -> (r: Vec<&Event>)
        ensures
            r@.map_values(|e: &Event| *e) == self.events().filter(|e: Event| event_selected(e, f)),
    {
        let ghost p = |e: Event| event_selected(e, f);
        let mut r: Vec<&Event> = Vec::new();
        let mut i: usize = 0;
        while i < self.events.len()
            invariant
                0 <= i <= self.events@.len(),
                p == (|e: Event| event_selected(e, f)),
                r@.map_values(|e: &Event| *e) == self.events@.subrange(0, i as int).filter(p),
            decreases self.events@.len() - i,
        {
            proof {
                lemma_filter_step(self.events@, p, i as int);
                lemma_deref_push(r@, &self.events@[i as int]);
            }
            if event_matches(&self.events[i], &f) {
                r.push(&self.events[i]);
            }
            i += 1;
        }
        proof {
            lemma_full_prefix(self.events@);
        }
        r
    }

    /// The events that have not ended.
    pub fn get_active_events(&self) -> (r: Vec<&Event>)
        ensures
            r@.map_values(|e: &Event| *e) == self.events().filter(|e: Event| e.end_time.is_none()),
    {
        let r = self.select_events(EventFilter::Active);
        assert((|e: Event| event_selected(e, EventFilter::Active)) =~= (|e: Event| e.end_time.is_none()));
        r
    }

    /// The events that have ended.
    pub fn get_completed_events(&self) -> (r: Vec<&Event>)
        ensures
            r@.map_values(|e: &Event| *e) == self.events().filter(|e: Event| e.end_time.is_some()),
    {
        let r = self.select_events(EventFilter::Completed);
        assert((|e: Event| event_selected(e, EventFilter::Completed)) =~= (|e: Event| e.end_time.is_some()));
        r
    }

    /// The events of project `project_id`.
    pub fn get_project_events(&self, project_id: u128) -> (r: Vec<&Event>)
        ensures
            r@.map_values(|e: &Event| *e) == self.events().filter(
                |e: Event| e.event_type == EventType::ProjectRelated(project_id),
            ),
    {
        let r = self.select_events(EventFilter::OfProject(project_id));
        assert((|e: Event| event_selected(e, EventFilter::OfProject(project_id))) =~= (|e: Event|
            e.event_type == EventType::ProjectRelated(project_id)));
        r
    }

    /// The events outside any project.
    pub fn get_non_project_events(&self) -> (r: Vec<&Event>)
        ensures
            r@.map_values(|e: &Event| *e) == self.events().filter(
                |e: Event| e.event_type == EventType::NonProject,
            ),
    {
        let r = self.select_events(EventFilter::NonProject);
        assert((|e: Event| event_selected(e, EventFilter::NonProject)) =~= (|e: Event|
            e.event_type == EventType::NonProject));
        r
    }

    /// Removes an event together with every time record that it left.
    pub fn delete_event(&mut self, event_id: u128) -> (r: Result<(), TrackerError>)
        requires
            old(self).wf(),
        ensures
            final(self).wf(),
            r.is_err() <==> !old(self).has(event_id),
            r matches Err(e) ==> e == TrackerError::NotFound && *final(self) == *old(self),
            r.is_ok() ==> final(self).events() == old(self).events().filter(
                |e: Event| e.id != event_id,
            ),
            r.is_ok() ==> final(self).records() == old(self).records().filter(
                |t: TimeRecord| t.event_id != event_id,
            ),
    {
        let i = match self.position(event_id) {
            Some(i) => i,
            None => {
                return Err(TrackerError::NotFound);
            },
        };
        let ghost es = self.events@;
        let ghost rs = self.time_records@;
        let _gone = self.events.remove(i);
        proof {
            lemma_distinct_remove(es, event_key(), i as int);
            assert forall|k: int| 0 <= k < es.len() && k != i implies (|e: Event| e.id != event_id)(
                #[trigger] es[k],
            ) by {
                assert(event_key()(es[k]) != event_key()(es[i as int]));
            }
            lemma_remove_is_filter(es, |e: Event| e.id != event_id, i as int);
        }
        let mut j: usize = 0;
        let mut found: Option<usize> = None;
        while j < self.time_records.len() && found.is_none()
            invariant
                0 <= j <= self.time_records@.len(),
                self.time_records@ == rs,
                found matches Some(k) ==> k < rs.len() && rs[k as int].event_id == event_id,
                found.is_none() ==> forall|k: int| 0 <= k < j ==> (#[trigger] rs[k]).event_id != event_id,
            decreases self.time_records@.len() - j,
        {
            if self.time_records[j].event_id == event_id {
                found = Some(j);
            }
            j += 1;
        }
        let ghost f = |t: TimeRecord| t.event_id != event_id;
        match found {
            Some(k) => {
                let _gone = self.time_records.remove(k);
                proof {
                    lemma_distinct_remove(rs, record_key(), k as int);
                    lemma_distinct_remove(rs, record_event_key(), k as int);
                    assert forall|m: int| 0 <= m < rs.len() && m != k implies f(#[trigger] rs[m]) by {
                        assert(record_event_key()(rs[m]) != record_event_key()(rs[k as int]));
                    }
                    lemma_remove_is_filter(rs, f, k as int);
                }
            },
            None => {
                proof {
                    assert forall|m: int| 0 <= m < rs.len() implies f(#[trigger] rs[m]) by {}
                    lemma_filter_keeps_all(rs, f);
                }
            },
        }
        proof {
            let es2 = self.events@;
            let rs2 = self.time_records@;
            assert forall|m: int| 0 <= m < rs2.len() implies produced_by(es2, #[trigger] rs2[m]) by {
                let t = rs2[m];
                let m0 = match found {
                    Some(k) => if m < k { m } else { m + 1 },
                    None => m,
                };
                assert(t == rs[m0]);
                assert(t.event_id != event_id);
                assert(produced_by(es, t));
                let a = choose|a: int| 0 <= a < es.len() && record_of(#[trigger] es[a], t);
                assert(a != i);
                let a1 = if a < i { a } else { a - 1 };
                assert(es2[a1] == es[a]);
            }
            assert forall|a: int| 0 <= a < es2.len() && (#[trigger] es2[a]).end_time.is_some() implies recorded(
                rs2,
                es2[a],
            ) by {
                let a0 = if a < i { a } else { a + 1 };
                assert(es2[a] == es[a0]);
                assert(event_key()(es[a0]) != event_key()(es[i as int]));
                assert(recorded(rs, es[a0]));
                let m = choose|m: int| 0 <= m < rs.len() && record_of(es[a0], #[trigger] rs[m]);
                match found {
                    Some(k) => {
                        assert(m != k);
                        let m1 = if m < k { m } else { m - 1 };
                        assert(rs2[m1] == rs[m]);
                    },
                    None => {
                        assert(rs2[m] == rs[m]);
                    },
                }
            }
        }
        Ok(())
    }

    /// Changes the title and the description of an event; a field given as
    /// `None` stays as it was.
    pub fn update_event(
        &mut self,
        event_id: u128,
        title: Option<String>,
        description: Option<String>,
    ) -> (r: Result<(), TrackerError>)
        requires
            old(self).wf(),
        ensures
            final(self).wf(),
            r.is_err() <==> !old(self).has(event_id),
            r matches Err(e) ==> e == TrackerError::NotFound && *final(self) == *old(self),
            final(self).records() == old(self).records(),
            r.is_ok() ==> exists|i: int|
                0 <= i < old(self).events().len() && #[trigger] old(self).events()[i].id == event_id
                    && final(self).events() == old(self).events().update(
                    i,
                    retitled(old(self).events()[i], title, description),
                ),
    {
        let i = match self.position(event_id) {
            Some(i) => i,
            None => {
                return Err(TrackerError::NotFound);
            },
        };
        let ghost es = self.events@;
        let mut e = self.events.remove(i);
        match title {
            Some(t) => {
                e.title = t;
            },
            None => {},
        }
        if description.is_some() {
            e.description = description;
        }
        self.events.insert(i, e);
        proof {
            let es2 = self.events@;
            assert(es2 =~= es.update(i as int, e));
            lemma_distinct_update(es, event_key(), i as int, e);
            assert forall|m: int| 0 <= m < self.time_records@.len() implies produced_by(
                es2,
                #[trigger] self.time_records@[m],
            ) by {
                let t = self.time_records@[m];
                let a = choose|a: int| 0 <= a < es.len() && record_of(#[trigger] es[a], t);
                assert(record_of(es2[a], t));
            }
            assert forall|a: int| 0 <= a < es2.len() && (#[trigger] es2[a]).end_time.is_some() implies recorded(
                self.time_records@,
                es2[a],
            ) by {
                assert(recorded(self.time_records@, es[a]));
                let m = choose|m: int| 0 <= m < self.time_records@.len() && record_of(es[a], #[trigger] self.time_records@[m]);
                assert(record_of(es2[a], self.time_records@[m]));
            }
        }
        Ok(())
    }

    /// The time record with id `record_id`, if any.
    pub fn get_time_record(&self, record_id: u128) -> (r: Option<&TimeRecord>)
        ensures
            r.is_some() == holds_key(self.records(), record_key(), record_id),
            r matches Some(t) ==> t.id == record_id && self.records().contains(*t),
    {
        let mut i: usize = 0;
        while i < self.time_records.len()
            invariant
                0 <= i <= self.time_records@.len(),
                forall|j: int| 0 <= j < i ==> record_key()(#[trigger] self.time_records@[j]) != record_id,
            decreases self.time_records@.len() - i,
        {
            if self.time_records[i].id == record_id {
                assert(self.records()[i as int] == self.time_records@[i as int]);
                return Some(&self.time_records[i]);
            }
            i += 1;
        }
        None
    }

    /// All time records.
    pub fn get_all_time_records(&self) -> (r: Vec<&TimeRecord>)
        ensures
            r@.map_values(|t: &TimeRecord| *t) == self.records(),
    {
        let mut r: Vec<&TimeRecord> = Vec::new();
        let mut i: usize = 0;
        while i < self.time_records.len()
            invariant
                0 <= i <= self.time_records@.len(),
                r@.map_values(|t: &TimeRecord| *t) == self.time_records@.subrange(0, i as int),
            decreases self.time_records@.len() - i,
        {
            proof {
                lemma_deref_push(r@, &self.time_records@[i as int]);
                assert(self.time_records@.subrange(0, i + 1) =~= self.time_records@.subrange(
                    0,
                    i as int,
                ).push(self.time_records@[i as int]));
            }
            r.push(&self.time_records[i]);
            i += 1;
        }
        proof {
            lemma_full_prefix(self.time_records@);
        }
        r
    }

    /// The time record that event `event_id` left, if it has completed.
    pub fn get_event_time_record(&self, event_id: u128) -> (r: Option<&TimeRecord>)
        requires
            self.wf(),
        ensures
            r.is_some() == holds_key(self.records(), record_event_key(), event_id),
            r matches Some(t) ==> t.event_id == event_id && self.records().contains(*t),
            r matches Some(t) ==> exists|i: int|
                0 <= i < self.events().len() && record_of(#[trigger] self.events()[i], *t),
    {
        let mut i: usize = 0;
        while i < self.time_records.len()
            invariant
                0 <= i <= self.time_records@.len(),
                self.wf(),
                forall|j: int| 0 <= j < i ==> record_event_key()(#[trigger] self.time_records@[j]) != event_id,
            decreases self.time_records@.len() - i,
        {
            if self.time_records[i].event_id == event_id {
                assert(self.records()[i as int] == self.time_records@[i as int]);
                assert(produced_by(self.events(), self.records()[i as int]));
                return Some(&self.time_records[i]);
            }
            i += 1;
        }
        None
    }

    /// The time records that `f` picks, in order.
    fn select_records(&self, f: RecordFilter) -> (r: Vec<&TimeRecord>)
        ensures
            r@.map_values(|t: &TimeRecord| *t) == self.records().filter(
                |t: TimeRecord| record_selected(t, f),
            ),
    {
        let ghost p = |t: TimeRecord| record_selected(t, f);
        let mut r: Vec<&TimeRecord> = Vec::new();
        let mut i: usize = 0;
        while i < self.time_records.len()
            invariant
                0 <= i <= self.time_records@.len(),
                p == (|t: TimeRecord| record_selected(t, f)),
                r@.map_values(|t: &TimeRecord| *t) == self.time_records@.subrange(0, i as int).filter(p),
            decreases self.time_records@.len() - i,
        {
            proof {
                lemma_filter_step(self.time_records@, p, i as int);
                lemma_deref_push(r@, &self.time_records@[i as int]);
            }
            if record_matches(&self.time_records[i], &f) {
                r.push(&self.time_records[i]);
            }
            i += 1;
        }
        proof {
            lemma_full_prefix(self.time_records@);
        }
        r
    }

    /// The time records of project `project_id`.
    pub fn get_project_time_records(&self, project_id: u128) -> (r: Vec<&TimeRecord>)
        ensures
            r@.map_values(|t: &TimeRecord| *t) == self.records().filter(
                |t: TimeRecord| t.project_id == Some(project_id),
            ),
    {
        let r = self.select_records(RecordFilter::OfProject(project_id));
        assert((|t: TimeRecord| record_selected(t, RecordFilter::OfProject(project_id))) =~= (|t: TimeRecord|
            t.project_id == Some(project_id)));
        r
    }

    /// The time records outside any project.
    pub fn get_non_project_time_records(&self) -> (r: Vec<&TimeRecord>)
        ensures
            r@.map_values(|t: &TimeRecord| *t) == self.records().filter(
                |t: TimeRecord| t.project_id.is_none(),
            ),
    {
        let r = self.select_records(RecordFilter::NonProject);
        assert((|t: TimeRecord| record_selected(t, RecordFilter::NonProject)) =~= (|t: TimeRecord|
            t.project_id.is_none()));
        r
    }

    pub fn get_event_count(&self) -> (r: usize)
        ensures
            r == self.events().len(),
    {
        self.events.len()
    }

    pub fn event_exists(&self, event_id: u128) -> (r: bool)
        ensures
            r == self.has(event_id),
    {
        self.position(event_id).is_some()
    }

    /// The events that start within `[start_time, end_time]`.
    pub fn get_events_in_range(&self, start_time: Timestamp, end_time: Timestamp) -> (r: Vec<&Event>)
        ensures
            r@.map_values(|e: &Event| *e) == self.events().filter(
                |e: Event| in_window(e.start_time, start_time, end_time),
            ),
    {
        let r = self.select_events(EventFilter::StartsWithin(start_time, end_time));
        assert((|e: Event| event_selected(e, EventFilter::StartsWithin(start_time, end_time))) =~= (|e: Event|
            in_window(e.start_time, start_time, end_time)));
        r
    }

    /// The time records that start within `[start_time, end_time]`.
    pub fn get_time_records_in_range(&self, start_time: Timestamp, end_time: Timestamp) -> (r: Vec<
        &TimeRecord,
    >)
        ensures
            r@.map_values(|t: &TimeRecord| *t) == self.records().filter(
                |t: TimeRecord| in_window(t.start_time, start_time, end_time),
            ),
    {
        let r = self.select_records(RecordFilter::StartsWithin(start_time, end_time));
        assert((|t: TimeRecord| record_selected(t, RecordFilter::StartsWithin(start_time, end_time))) =~= (|t: TimeRecord|
            in_window(t.start_time, start_time, end_time)));
        r
    }
}

/// Every completed event of the ledger has exactly one time record: it
/// copies the event's id, project, start and end, and counts the whole
/// minutes between them.
pub proof fn law_completed_event_has_one_record(m: &EventManager, i: int)
    requires
        m.wf(),
        0 <= i < m.events().len(),
        m.events()[i].end_time.is_some(),
    ensures
        exists|j: int|
            0 <= j < m.records().len() && record_of(m.events()[i], #[trigger] m.records()[j])
                && forall|k: int|
                0 <= k < m.records().len() && (#[trigger] m.records()[k]).event_id == m.events()[i].id
                    ==> k == j,
{
    let e = m.events()[i];
    assert(recorded(m.records(), e));
    let j = choose|j: int| 0 <= j < m.records().len() && record_of(e, #[trigger] m.records()[j]);
    assert forall|k: int|
        0 <= k < m.records().len() && (#[trigger] m.records()[k]).event_id == e.id implies k == j by {
        if k != j {
            assert(record_event_key()(m.records()[k]) != record_event_key()(m.records()[j]));
        }
    }
}

impl Default for EventManager {
    fn default() -> (r: EventManager)
        ensures
            r.wf(),
            r.events().len() == 0,
            r.records().len() == 0,
    {
        EventManager::new()
    }
}

} // verus!
