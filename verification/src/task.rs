//! The graph of sub-agent tasks: each task's status, its parent and the
//! result it reports back.
//!
//! Identifiers are the 128-bit values of version-4 UUIDs and times are
//! milliseconds since the Unix epoch, in UTC.

use vstd::prelude::*;
use std::collections::HashMap;
use std::collections::hash_map::Entry;
use vstd::std_specs::iter::IteratorSpec;
use crate::session_log::epoch_millis;

verus! {

broadcast use vstd::std_specs::hash::group_hash_axioms;

/// Status of a task.
#[derive(Debug, Clone, Copy, PartialEq, Eq, Structural)]
pub enum TaskStatus {
    Pending,
    Running,
    Completed,
    Failed,
    Cancelled,
}

/// A status that ends a task.
pub open spec fn is_terminal(s: TaskStatus) -> bool {
    s == TaskStatus::Completed || s == TaskStatus::Failed || s == TaskStatus::Cancelled
}

/// Context a task inherits from its parent session.
#[derive(Debug, Clone)]
pub struct ContextSnapshot {
    pub relevant_file_paths: Vec<String>,
    pub key_decisions: Vec<String>,
}

impl Default for ContextSnapshot {
    fn default() -> (s: Self)
        ensures
            s.relevant_file_paths@.len() == 0,
            s.key_decisions@.len() == 0,
    {
        ContextSnapshot { relevant_file_paths: Vec::new(), key_decisions: Vec::new() }
    }
}

/// A fresh random task identifier: the value of `Uuid::new_v4()`. Nothing
/// is stated of it.
#[verifier::external_body]
fn fresh_task_id() -> (id: u128) {
    uuid::Uuid::new_v4().as_u128()
}

/// A node of the task graph.
#[derive(Debug, Clone)]
pub struct TaskNode {
    pub id: u128,
    pub parent_id: Option<u128>,
    pub description: String,
    pub status: TaskStatus,
    pub created_at: i64,
    pub finished_at: Option<i64>,
    pub context_snapshot: ContextSnapshot,
    pub result_summary: Option<String>,
    pub affected_files: Vec<String>,
}

impl TaskNode {
    /// A pending task with a fresh identifier, created now.
    pub fn new(description: String, parent_id: Option<u128>) -> (t: Self)
        ensures
            t.parent_id == parent_id,
            t.description == description,
            t.status == TaskStatus::Pending,
            t.finished_at is None,
            t.context_snapshot.relevant_file_paths@.len() == 0,
            t.context_snapshot.key_decisions@.len() == 0,
            t.result_summary is None,
            t.affected_files@.len() == 0,
    {
        TaskNode {
            id: fresh_task_id(),
            parent_id,
            description,
            status: TaskStatus::Pending,
            created_at: epoch_millis(),
            finished_at: None,
            context_snapshot: ContextSnapshot::default(),
            result_summary: None,
            affected_files: Vec::new(),
        }
    }

    /// Mark the task completed with its summary, finished now.
    pub fn complete(&mut self, summary: String)
        ensures
            final(self).status == TaskStatus::Completed,
            final(self).result_summary == Some(summary),
            final(self).finished_at is Some,
            *final(self) == (TaskNode {
                status: TaskStatus::Completed,
                result_summary: Some(summary),
                finished_at: final(self).finished_at,
                ..*old(self)
            }),
    {
        self.status = TaskStatus::Completed;
        self.result_summary = Some(summary);
        self.finished_at = Some(epoch_millis());
    }

    /// Mark the task failed with the reason, finished now.
    pub fn fail(&mut self, reason: String)
        ensures
            *final(self) == (TaskNode {
                status: TaskStatus::Failed,
                result_summary: Some(reason),
                finished_at: final(self).finished_at,
                ..*old(self)
            }),
            final(self).finished_at is Some,
    {
        self.status = TaskStatus::Failed;
        self.result_summary = Some(reason);
        self.finished_at = Some(epoch_millis());
    }
}

/// The tasks, by identifier.
pub struct TaskGraph {
    tasks: HashMap<u128, TaskNode>,
}

impl TaskGraph {
    pub closed spec fn view(&self) -> Map<u128, TaskNode> {
        self.tasks@
    }

    /// An empty graph.
    pub fn new() -> (g: Self)
        ensures
            g.view() == Map::<u128, TaskNode>::empty(),
    {
        TaskGraph { tasks: HashMap::new() }
    }

    /// Add a task under its identifier, replacing any task with the same
    /// identifier, and return the identifier.
    pub fn add(&mut self, task: TaskNode) -> (id: u128)
        ensures
            id == task.id,
            final(self).view() == old(self).view().insert(task.id, task),
    {
        let id = task.id;
        self.tasks.insert(id, task);
        id
    }

    /// Every task, by identifier.
    pub fn all(&self) -> (r: &HashMap<u128, TaskNode>)
        ensures
            r@ == self.view(),
    {
        &self.tasks
    }

    /// The task with identifier `id`.
    pub fn get(&self, id: &u128) -> (r: Option<&TaskNode>)
        ensures
            match r {
                Some(t) => self.view().contains_key(*id) && *t == self.view()[*id],
                None => !self.view().contains_key(*id),
            },
    {
        self.tasks.get(id)
    }

    /// The task with identifier `id`, to change in place.
    pub fn get_mut(&mut self, id: &u128) -> (r: Option<&mut TaskNode>)
        ensures
            match r {
                Some(t) => {
                    &&& old(self).view().contains_key(*id)
                    &&& *t == old(self).view()[*id]
                    &&& final(self).view() == old(self).view().insert(*id, *final(t))
                },
                None => !old(self).view().contains_key(*id) && final(self).view() == old(self).view(),
            },
    {
        match self.tasks.entry(*id) {
            Entry::Occupied(o) => Some(o.into_mut()),
            Entry::Vacant(_) => None,
        }
    }

    /// Set the status of task `id`, stamping the finish time when the new
    /// status ends the task. False when there is no such task.
    pub fn update_status(&mut self, id: &u128, status: TaskStatus) -> (found: bool)
        ensures
            found == old(self).view().contains_key(*id),
            !found ==> final(self).view() == old(self).view(),
            found ==> {
                let t = old(self).view()[*id];
                let u = final(self).view()[*id];
                &&& final(self).view() == old(self).view().insert(*id, u)
                &&& u == (TaskNode { status, finished_at: u.finished_at, ..t })
                &&& is_terminal(status) ==> u.finished_at is Some
                &&& !is_terminal(status) ==> u.finished_at == t.finished_at
            },
    {
        match self.tasks.remove(id) {
            Some(mut task) => {
                task.status = status;
                match status {
                    TaskStatus::Completed | TaskStatus::Failed | TaskStatus::Cancelled => {
                        task.finished_at = Some(epoch_millis());
                    },
                    _ => {},
                }
                self.tasks.insert(*id, task);
                assert(self.tasks@ =~= old(self).tasks@.insert(*id, task));
                true
            },
            None => false,
        }
    }

    /// The tasks whose parent is `parent_id`, in the map's walking order.
    pub fn children(&self, parent_id: &u128) -> (r: Vec<&TaskNode>)
        ensures
            forall|i: int| 0 <= i < r@.len() ==> self.view().values().contains(*r@[i]) && (#[trigger] r@[i]).parent_id
                == Some(*parent_id),
            forall|k: u128|
                #![trigger self.view()[k]]
                self.view().contains_key(k) && self.view()[k].parent_id == Some(*parent_id) ==> exists|i: int|
                    0 <= i < r@.len() && *r@[i] == self.view()[k],
    {
        let mut r: Vec<&TaskNode> = Vec::new();
        for kv in it: self.tasks.iter()
            invariant
                it.seq() == vstd::std_specs::hash::spec_hash_map_iter(&self.tasks).remaining(),
                forall|i: int| 0 <= i < r@.len() ==> self.view().values().contains(*r@[i]) && (#[trigger] r@[i]).parent_id
                    == Some(*parent_id),
                forall|j: int|
                    0 <= j < it.index() && (*it.seq()[j].1).parent_id == Some(*parent_id) ==> exists|i: int|
                        0 <= i < r@.len() && *r@[i] == *it.seq()[j].1,
        {
            let (k, t) = kv;
            proof {
                let v = it.seq();
                let i0 = it.index();
                assert(kv == v[i0 as int]);
                assert(self.tasks@.contains_key(*v[i0 as int].0));
                assert(self.tasks@[*v[i0 as int].0] == *v[i0 as int].1);
                assert(self.view().values().contains(*t)) by {
                    assert(self.view().contains_key(*k) && self.view()[*k] == *t);
                }
            }
            let ghost r0 = r@;
            let ghost i0 = it.index();
            if t.parent_id == Some(*parent_id) {
                r.push(t);
            }
            proof {
                let v = it.seq();
                assert forall|j: int|
                    0 <= j < i0 + 1 && (*v[j].1).parent_id == Some(*parent_id) implies exists|i: int|
                        0 <= i < r@.len() && *r@[i] == *v[j].1 by {
                    if j < i0 {
                        let i = choose|i: int| 0 <= i < r0.len() && *r0[i] == *v[j].1;
                        assert(r@[i] == r0[i]);
                    } else {
                        assert(*r@[r@.len() - 1] == *v[j].1);
                    }
                }
            }
        }
        r
    }
}

} // verus!
