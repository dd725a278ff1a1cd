//! The project registry: all projects and the one that is current.
use vstd::prelude::*;

use crate::ids::fresh_id;
use crate::models::{Event, EventType, Project, TrackerError};
use crate::platform::{new_id, now};
use crate::seqs::lemma_remove_is_filter;

verus! {

/// Whether `s` holds a project with id `id`.
pub open spec fn holds_project(s: Seq<Project>, id: u128) -> bool {
    exists|i: int| 0 <= i < s.len() && (#[trigger] s[i]).id == id
}

/// No two projects of `s` share an id.
pub open spec fn distinct_project_ids(s: Seq<Project>) -> bool {
    forall|i: int, j: int|
        0 <= i < s.len() && 0 <= j < s.len() && i != j ==> (#[trigger] s[i]).id != (#[trigger] s[j]).id
}

/// `s` after making `id` the only active project.
pub open spec fn switched(s: Seq<Project>, id: u128) -> Seq<Project> {
    s.map_values(|p: Project| Project { is_active: p.id == id, ..p })
}

/// The registry of projects.
pub struct ProjectManager {
    projects: Vec<Project>,
    current_project_id: Option<u128>,
}

impl ProjectManager {
    /// The projects, in the order in which they were added.
    pub closed spec fn projects(&self) -> Seq<Project> {
        self.projects@
    }

    /// The id of the current project.
    pub closed spec fn current_id(&self) -> Option<u128> {
        self.current_project_id
    }

    /// Ids are unique, a project is active exactly when it is the current
    /// one, and the current id names a project.
    pub open spec fn wf(&self) -> bool {
        &&& distinct_project_ids(self.projects())
        &&& forall|i: int|
            0 <= i < self.projects().len() ==> ((#[trigger] self.projects()[i]).is_active
                <==> self.current_id() == Some(self.projects()[i].id))
        &&& self.current_id() matches Some(c) ==> holds_project(self.projects(), c)
    }

    pub open spec fn has(&self, id: u128) -> bool {
        holds_project(self.projects(), id)
    }

    pub fn new() -> (r: ProjectManager)
        ensures
            r.wf(),
            r.projects().len() == 0,
            r.current_id().is_none(),
    {
        ProjectManager { projects: Vec::new(), current_project_id: None }
    }

    /// The index of the project with id `id`.
    fn position(&self, id: u128) -> (r: Option<usize>)
        ensures
            r matches Some(i) ==> i < self.projects().len() && self.projects()[i as int].id == id,
            r.is_none() <==> !self.has(id),
    {
        let mut i: usize = 0;
        while i < self.projects.len()
            invariant
                0 <= i <= self.projects@.len(),
                forall|j: int| 0 <= j < i ==> (#[trigger] self.projects@[j]).id != id,
            decreases self.projects@.len() - i,
        {
            if self.projects[i].id == id {
                return Some(i);
            }
            i += 1;
        }
        None
    }

    /// The ids of all projects.
    fn ids(&self) -> (r: Vec<u128>)
        ensures
            r@.len() == self.projects().len(),
            forall|i: int| 0 <= i < r@.len() ==> r@[i] == (#[trigger] self.projects()[i]).id,
    {
        let mut r: Vec<u128> = Vec::new();
        let mut i: usize = 0;
        while i < self.projects.len()
            invariant
                0 <= i <= self.projects@.len(),
                r@.len() == i,
                forall|j: int| 0 <= j < i ==> r@[j] == (#[trigger] self.projects@[j]).id,
            decreases self.projects@.len() - i,
        {
            r.push(self.projects[i].id);
            i += 1;
        }
        r
    }

    /// Adds a project under a fresh id and returns the id. The first project
    /// of an empty registry becomes active and current; any later one starts
    /// inactive.
    pub fn add_project(&mut self, name: String, description: Option<String>) -> (r: u128)
        requires
            old(self).wf(),
        ensures
            final(self).wf(),
            !old(self).has(r),
            final(self).projects().len() == old(self).projects().len() + 1,
            final(self).projects().drop_last() == old(self).projects(),
            final(self).projects().last().id == r,
            final(self).projects().last().name == name,
            final(self).projects().last().description == description,
            final(self).projects().last().is_active == (old(self).projects().len() == 0),
            final(self).current_id() == if old(self).projects().len() == 0 {
                Some(r)
            } else {
                old(self).current_id()
            },
    {
        let taken = self.ids();
        let id = fresh_id(&taken, new_id());
        proof {
            if self.has(id) {
                let i = choose|i: int| 0 <= i < self.projects@.len() && (#[trigger] self.projects@[i]).id == id;
                assert(taken@[i] == id);
            }
        }
        let first = self.projects.len() == 0;
        let project = Project { id, name, description, created_at: now(), is_active: first };
        if first {
            self.current_project_id = Some(id);
        }
        self.projects.push(project);
        proof {
            let s = self.projects@;
            assert(s.drop_last() =~= old(self).projects@);
            assert(s[s.len() - 1].id == id);
            if let Some(c) = self.current_project_id {
                if !first {
                    let i = choose|i: int| 0 <= i < old(self).projects@.len() && (#[trigger] old(self).projects@[i]).id == c;
                    assert(s[i].id == c);
                }
            }
        }
        id
    }

    /// Removes a project. Where it was the current one, no project is current
    /// afterwards.
    pub fn delete_project(&mut self, project_id: u128) -> (r: Result<(), TrackerError>)
        requires
            old(self).wf(),
        ensures
            final(self).wf(),
            r.is_err() <==> !old(self).has(project_id),
            r matches Err(e) ==> e == TrackerError::NotFound && *final(self) == *old(self),
            r.is_ok() ==> final(self).projects() == old(self).projects().filter(
                |p: Project| p.id != project_id,
            ),
            r.is_ok() ==> final(self).current_id() == if old(self).current_id() == Some(project_id) {
                None
            } else {
                old(self).current_id()
            },
    {
        match self.position(project_id) {
            None => Err(TrackerError::NotFound),
            Some(i) => {
                if self.current_project_id == Some(project_id) {
                    self.current_project_id = None;
                }
                let ghost before = self.projects@;
                let _removed = self.projects.remove(i);
                proof {
                    assert forall|k: int| 0 <= k < before.len() && k != i implies (|p: Project| p.id
                        != project_id)(#[trigger] before[k]) by {
                        assert(before[k].id != before[i as int].id);
                    }
                    lemma_remove_is_filter(before, |p: Project| p.id != project_id, i as int);
                    let s = self.projects@;
                    assert(s =~= before.remove(i as int));
                    assert forall|a: int, b: int|
                        0 <= a < s.len() && 0 <= b < s.len() && a != b implies (#[trigger] s[a]).id != (#[trigger] s[b]).id by {
                        let a0 = if a < i { a } else { a + 1 };
                        let b0 = if b < i { b } else { b + 1 };
                        assert(s[a] == before[a0]);
                        assert(s[b] == before[b0]);
                    }
                    assert forall|a: int| 0 <= a < s.len() implies ((#[trigger] s[a]).is_active
                        <==> self.current_project_id == Some(s[a].id)) by {
                        let a0 = if a < i { a } else { a + 1 };
                        assert(s[a] == before[a0]);
                    }
                    if let Some(c) = self.current_project_id {
                        let k = choose|k: int| 0 <= k < before.len() && (#[trigger] before[k]).id == c;
                        assert(k != i);
                        let k1 = if k < i { k } else { k - 1 };
                        assert(s[k1] == before[k]);
                    }
                }
                Ok(())
            },
        }
    }

    /// Makes `project_id` the current project and the only active one.
    pub fn switch_to_project(&mut self, project_id: u128) -> (r: Result<(), TrackerError>)
        requires
            old(self).wf(),
        ensures
            final(self).wf(),
            r.is_err() <==> !old(self).has(project_id),
            r matches Err(e) ==> e == TrackerError::NotFound && *final(self) == *old(self),
            r.is_ok() ==> final(self).projects() == switched(old(self).projects(), project_id),
            r.is_ok() ==> final(self).current_id() == Some(project_id),
    {
        if self.position(project_id).is_none() {
            return Err(TrackerError::NotFound);
        }
        let ghost before = self.projects@;
        let n = self.projects.len();
        let mut kept: Vec<Project> = Vec::new();
        let mut i: usize = 0;
        while i < n
            invariant
                n == before.len(),
                self.projects@ == before,
                0 <= i <= n,
                kept@.len() == i,
                forall|j: int| 0 <= j < i ==> #[trigger] kept@[j] == switched(before, project_id)[j],
            decreases n - i,
        {
            let p = &self.projects[i];
            let q = Project {
                id: p.id,
                name: p.name.clone(),
                description: crate::models::copy_text(&p.description),
                created_at: p.created_at,
                is_active: p.id == project_id,
            };
            kept.push(q);
            i += 1;
        }
        self.projects = kept;
        self.current_project_id = Some(project_id);
        proof {
            let s = self.projects@;
            assert(s =~= switched(before, project_id));
            assert forall|a: int, b: int|
                0 <= a < s.len() && 0 <= b < s.len() && a != b implies (#[trigger] s[a]).id != (#[trigger] s[b]).id by {
                assert(s[a].id == before[a].id);
                assert(s[b].id == before[b].id);
            }
            let k = choose|k: int| 0 <= k < before.len() && (#[trigger] before[k]).id == project_id;
            assert(s[k].id == project_id);
        }
        Ok(())
    }

    /// The current project, if any.
    pub fn get_current_project(&self) -> (r: Option<&Project>)
        requires
            self.wf(),
        ensures
            r.is_some() == self.current_id().is_some(),
            r matches Some(p) ==> Some(p.id) == self.current_id() && self.projects().contains(*p),
    {
        match self.current_project_id {
            None => None,
            Some(c) => match self.position(c) {
                Some(i) => Some(&self.projects[i]),
                None => None,
            },
        }
    }

    /// All projects.
    pub fn get_all_projects(&self) -> (r: Vec<&Project>)
        ensures
            r@.len() == self.projects().len(),
            forall|i: int| 0 <= i < r@.len() ==> *r@[i] == #[trigger] self.projects()[i],
    {
        let mut r: Vec<&Project> = Vec::new();
        let mut i: usize = 0;
        while i < self.projects.len()
            invariant
                0 <= i <= self.projects@.len(),
                r@.len() == i,
                forall|j: int| 0 <= j < i ==> *r@[j] == #[trigger] self.projects@[j],
            decreases self.projects@.len() - i,
        {
            r.push(&self.projects[i]);
            i += 1;
        }
        r
    }

    /// The project with id `project_id`, if any.
    pub fn get_project(&self, project_id: u128) -> (r: Option<&Project>)
        ensures
            r.is_some() == self.has(project_id),
            r matches Some(p) ==> p.id == project_id && self.projects().contains(*p),
    {
        match self.position(project_id) {
            Some(i) => Some(&self.projects[i]),
            None => None,
        }
    }

    /// Changes the name and the description of a project; a field given as
    /// `None` stays as it was.
    pub fn update_project(
        &mut self,
        project_id: u128,
        name: Option<String>,
        description: Option<String>,
    ) -> (r: Result<(), TrackerError>)
        requires
            old(self).wf(),
        ensures
            final(self).wf(),
            r.is_err() <==> !old(self).has(project_id),
            r matches Err(e) ==> e == TrackerError::NotFound && *final(self) == *old(self),
            final(self).current_id() == old(self).current_id(),
            r.is_ok() ==> exists|i: int|
                0 <= i < old(self).projects().len() && #[trigger] old(self).projects()[i].id == project_id
                    && final(self).projects() == old(self).projects().update(
                    i,
                    Project {
                        name: match name {
                            Some(n) => n,
                            None => old(self).projects()[i].name,
                        },
                        description: if description.is_some() {
                            description
                        } else {
                            old(self).projects()[i].description
                        },
                        ..old(self).projects()[i]
                    },
                ),
    {
        match self.position(project_id) {
            None => Err(TrackerError::NotFound),
            Some(i) => {
                let ghost before = self.projects@;
                let mut p = self.projects.remove(i);
                match name {
                    Some(n) => {
                        p.name = n;
                    },
                    None => {},
                }
                if description.is_some() {
                    p.description = description;
                }
                self.projects.insert(i, p);
                proof {
                    let s = self.projects@;
                    assert(s =~= before.update(i as int, p));
                    assert forall|a: int, b: int|
                        0 <= a < s.len() && 0 <= b < s.len() && a != b implies (#[trigger] s[a]).id != (#[trigger] s[b]).id by {
                        assert(s[a].id == before[a].id);
                        assert(s[b].id == before[b].id);
                    }
                    assert forall|a: int| 0 <= a < s.len() implies ((#[trigger] s[a]).is_active
                        <==> self.current_project_id == Some(s[a].id)) by {
                        assert(s[a].id == before[a].id);
                        assert(s[a].is_active == before[a].is_active);
                    }
                    if let Some(c) = self.current_project_id {
                        let k = choose|k: int| 0 <= k < before.len() && (#[trigger] before[k]).id == c;
                        assert(s[k].id == c);
                    }
                }
                Ok(())
            },
        }
    }

    pub fn get_project_count(&self) -> (r: usize)
        ensures
            r == self.projects().len(),
    {
        self.projects.len()
    }

    pub fn project_exists(&self, project_id: u128) -> (r: bool)
        ensures
            r == self.has(project_id),
    {
        self.position(project_id).is_some()
    }

    /// The names of all projects, in order.
    pub fn get_project_names(&self) -> (r: Vec<String>)
        ensures
            r@.len() == self.projects().len(),
            forall|i: int| 0 <= i < r@.len() ==> r@[i] == (#[trigger] self.projects()[i]).name,
    {
        let mut r: Vec<String> = Vec::new();
        let mut i: usize = 0;
        while i < self.projects.len()
            invariant
                0 <= i <= self.projects@.len(),
                r@.len() == i,
                forall|j: int| 0 <= j < i ==> r@[j] == (#[trigger] self.projects@[j]).name,
            decreases self.projects@.len() - i,
        {
            r.push(self.projects[i].name.clone());
            i += 1;
        }
        r
    }

    /// A new event of the current project, starting now; refused when no
    /// project is current.
    pub fn create_project_event(&self, title: String, description: Option<String>) -> (r: Result<
        Event,
        TrackerError,
    >)
        ensures
            r.is_err() <==> self.current_id().is_none(),
            r matches Err(e) ==> e == TrackerError::NoActiveProject,
            r matches Ok(ev) ==> ev.title == title && ev.description == description
                && ev.event_type == EventType::ProjectRelated(self.current_id().unwrap())
                && ev.end_time.is_none(),
    {
        match self.current_project_id {
            Some(c) => Ok(Event::new(title, description, EventType::ProjectRelated(c), now())),
            None => Err(TrackerError::NoActiveProject),
        }
    }

    /// A new event outside any project, starting now.
    pub fn create_non_project_event(&self, title: String, description: Option<String>) -> (r:
        Event)
        ensures
            r.title == title,
            r.description == description,
            r.event_type == EventType::NonProject,
            r.end_time.is_none(),
    {
        Event::new(title, description, EventType::NonProject, now())
    }
}

/// Switching to the same project a second time changes nothing.
pub proof fn law_switch_idempotent(s: Seq<Project>, id: u128)
    ensures
        switched(switched(s, id), id) == switched(s, id),
{
    assert(switched(switched(s, id), id) =~= switched(s, id));
}

/// After switching to a project of the registry, exactly that one project is
/// active.
pub proof fn law_switch_single_active(s: Seq<Project>, id: u128)
    requires
        distinct_project_ids(s),
        holds_project(s, id),
    ensures
        exists|i: int|
            0 <= i < s.len() && (#[trigger] switched(s, id)[i]).is_active && forall|j: int|
                0 <= j < s.len() && (#[trigger] switched(s, id)[j]).is_active ==> j == i,
{
    let i = choose|i: int| 0 <= i < s.len() && (#[trigger] s[i]).id == id;
    let t = switched(s, id);
    assert(t[i].is_active);
    assert forall|j: int| 0 <= j < s.len() && (#[trigger] t[j]).is_active implies j == i by {
        assert(t[j].id == s[j].id);
    }
}

impl Default for ProjectManager {
    fn default() -> (r: ProjectManager)
        ensures
            r.wf(),
            r.projects().len() == 0,
            r.current_id().is_none(),
    {
        ProjectManager::new()
    }
}

} // verus!
