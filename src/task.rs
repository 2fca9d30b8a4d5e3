//! The task record, its mathematical view, and the per-task invariant.
use vstd::prelude::*;
use crate::status::{Status, is_held};

verus! {

/// Length of a lease, in seconds.
pub const LEASE_SECS: u64 = 300;

/// A unit of work with a status, an optional holder and an optional lease.
#[derive(Debug)]
pub struct Task {
    pub id: String,
    pub project_id: String,
    pub title: String,
    pub description: String,
    pub status: Status,
    pub assignee: Option<String>,
    pub lease_expires_at: Option<u64>,
    pub attempts: u32,
    pub last_error: Option<String>,
    pub delivery_summary: Option<String>,
}

/// The mathematical view of a [`Task`]: its texts as character sequences.
pub struct TaskView {
    pub id: Seq<char>,
    pub project_id: Seq<char>,
    pub title: Seq<char>,
    pub description: Seq<char>,
    pub status: Status,
    pub assignee: Option<Seq<char>>,
    pub lease_expires_at: Option<u64>,
    pub attempts: u32,
    pub last_error: Option<Seq<char>>,
    pub delivery_summary: Option<Seq<char>>,
}

/// The view of an optional text.
pub open spec fn text_opt(o: Option<String>) -> Option<Seq<char>> {
    match o {
        Some(s) => Some(s@),
        None => None,
    }
}

/// The view of an optional task.
pub open spec fn task_opt(o: Option<Task>) -> Option<TaskView> {
    match o {
        Some(t) => Some(t@),
        None => None,
    }
}

impl View for Task {
    type V = TaskView;

    open spec fn view(&self) -> TaskView {
        TaskView {
            id: self.id@,
            project_id: self.project_id@,
            title: self.title@,
            description: self.description@,
            status: self.status,
            assignee: text_opt(self.assignee),
            lease_expires_at: self.lease_expires_at,
            attempts: self.attempts,
            last_error: text_opt(self.last_error),
            delivery_summary: text_opt(self.delivery_summary),
        }
    }
}

/// Statuses in which a task is always held by someone.
pub open spec fn needs_holder(s: Status) -> bool {
    s == Status::Assigned || s == Status::InProgress || s == Status::Blocked || s == Status::Review
}

/// An open task has no holder; an assigned, in-progress, blocked or review
/// task has one; and a task carries a lease only while assigned or in
/// progress.
pub open spec fn task_ok(t: TaskView) -> bool {
    &&& t.status == Status::Open ==> t.assignee is None
    &&& needs_holder(t.status) ==> t.assignee is Some
    &&& t.lease_expires_at is Some ==> is_held(t.status)
}

/// When a lease taken at `now` runs out; the clock's last second if the
/// sum does not fit.
pub open spec fn lease_end(now: u64) -> u64 {
    if now <= u64::MAX - LEASE_SECS {
        (now + LEASE_SECS) as u64
    } else {
        u64::MAX
    }
}

/// The attempt count after one more claim, held at the counter's maximum.
pub open spec fn next_attempt(n: u32) -> u32 {
    if n < u32::MAX {
        (n + 1) as u32
    } else {
        u32::MAX
    }
}

/// No lease is current at `now`: there is none, or it has run out.
pub open spec fn lease_lapsed(t: TaskView, now: u64) -> bool {
    match t.lease_expires_at {
        None => true,
        Some(e) => e <= now,
    }
}

/// A task can be claimed at `now`: it is open or assigned with no current
/// lease, or in progress under a lease that has run out.
pub open spec fn claimable(t: TaskView, now: u64) -> bool {
    ||| (t.status == Status::Open || t.status == Status::Assigned) && lease_lapsed(t, now)
    ||| t.status == Status::InProgress && t.lease_expires_at is Some && lease_lapsed(t, now)
}

/// The task after `worker` takes hold of it in `status` at `now`, under a
/// fresh lease.
pub open spec fn held_by(t: TaskView, worker: Seq<char>, status: Status, now: u64) -> TaskView {
    TaskView {
        status: status,
        assignee: Some(worker),
        lease_expires_at: Some(lease_end(now)),
        ..t
    }
}

/// The task after `worker` claims it at `now`.
pub open spec fn claimed(t: TaskView, worker: Seq<char>, now: u64) -> TaskView {
    TaskView {
        attempts: next_attempt(t.attempts),
        ..held_by(t, worker, Status::InProgress, now)
    }
}

/// A fresh open task.
pub open spec fn fresh_task(
    id: Seq<char>,
    project_id: Seq<char>,
    title: Seq<char>,
    description: Seq<char>,
) -> TaskView {
    TaskView {
        id: id,
        project_id: project_id,
        title: title,
        description: description,
        status: Status::Open,
        assignee: None,
        lease_expires_at: None,
        attempts: 0,
        last_error: None,
        delivery_summary: None,
    }
}

/// A copy of an optional text.
pub fn copy_text_opt(o: &Option<String>) -> (r: Option<String>)
    ensures
        text_opt(r) == text_opt(*o),
{
    match o {
        Some(s) => Some(s.clone()),
        None => None,
    }
}

/// The time at which a lease taken at `now` runs out.
pub fn lease_end_at(now: u64) -> (r: u64)
    ensures
        r == lease_end(now),
{
    now.saturating_add(LEASE_SECS)
}

impl Task {
    /// A new open task with no holder, no lease and no attempts.
    pub fn new(id: String, project_id: String, title: String, description: String) -> (r: Task)
        ensures
            r@ == fresh_task(id@, project_id@, title@, description@),
    {
        Task {
            id,
            project_id,
            title,
            description,
            status: Status::Open,
            assignee: None,
            lease_expires_at: None,
            attempts: 0,
            last_error: None,
            delivery_summary: None,
        }
    }

    /// Claimability at `now`, as [`claimable`] defines it.
    pub fn is_claimable(&self, now: u64) -> (r: bool)
        ensures
            r == claimable(self@, now),
    {
        let lapsed = match self.lease_expires_at {
            None => true,
            Some(e) => e <= now,
        };
        match self.status {
            Status::Open | Status::Assigned => lapsed,
            Status::InProgress => self.lease_expires_at.is_some() && lapsed,
            _ => false,
        }
    }
}

impl Task {
    /// Whether the record meets [`task_ok`].
    pub fn is_well_formed(&self) -> (r: bool)
        ensures
            r == task_ok(self@),
    {
        let held = matches!(self.status, Status::Assigned | Status::InProgress);
        let needs = held || matches!(self.status, Status::Blocked | Status::Review);
        (self.status != Status::Open || self.assignee.is_none()) && (!needs
            || self.assignee.is_some()) && (self.lease_expires_at.is_none() || held)
    }
}

impl Clone for Task {
    fn clone(&self) -> (r: Task)
        ensures
            r@ == self@,
    {
        Task {
            id: self.id.clone(),
            project_id: self.project_id.clone(),
            title: self.title.clone(),
            description: self.description.clone(),
            status: self.status,
            assignee: copy_text_opt(&self.assignee),
            lease_expires_at: self.lease_expires_at,
            attempts: self.attempts,
            last_error: copy_text_opt(&self.last_error),
            delivery_summary: copy_text_opt(&self.delivery_summary),
        }
    }
}

} // verus!
