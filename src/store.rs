//! The task store: every task in insertion order, and the operations that
//! create, hand out and settle tasks.
//!
//! Claims scan tasks in insertion order and take the earliest claimable one,
//! so the choice is deterministic. A failed task stays failed: nothing in the
//! store reopens it.
use vstd::prelude::*;
use crate::status::{Status, allowed, is_held, parse_status};
use crate::task::{
    Task, TaskView, claimable, claimed, fresh_task, held_by, lease_end_at, task_ok, task_opt, next_attempt,
};
use crate::clock::{new_id, now_secs};
use crate::order::{arranged, rearranges, sorted_order, text_le};
use crate::text::text_equals;

verus! {

broadcast use vstd::string::group_string_axioms;

/// No two tasks share an id.
pub open spec fn ids_unique(s: Seq<TaskView>) -> bool {
    forall|i: int, j: int|
        0 <= i < s.len() && 0 <= j < s.len() && #[trigger] s[i].id == #[trigger] s[j].id ==> i == j
}

/// The store's invariant: unique ids, and every task well formed.
pub open spec fn store_ok(s: Seq<TaskView>) -> bool {
    &&& ids_unique(s)
    &&& forall|i: int| 0 <= i < s.len() ==> task_ok(#[trigger] s[i])
}

/// Some task has this id.
pub open spec fn has_id(s: Seq<TaskView>, id: Seq<char>) -> bool {
    exists|i: int| 0 <= i < s.len() && #[trigger] s[i].id == id
}

/// The index of the task with this id (meaningful when [`has_id`] holds).
pub open spec fn position(s: Seq<TaskView>, id: Seq<char>) -> int {
    choose|i: int| 0 <= i < s.len() && #[trigger] s[i].id == id
}

/// The first index at or after `i` whose task is claimable at `now`.
pub open spec fn first_claimable_from(s: Seq<TaskView>, now: u64, i: int) -> Option<int>
    decreases s.len() - i,
{
    if i < 0 || i >= s.len() {
        None
    } else if claimable(s[i], now) {
        Some(i)
    } else {
        first_claimable_from(s, now, i + 1)
    }
}

/// The task a claim at `now` selects: the earliest claimable one.
pub open spec fn claim_pick(s: Seq<TaskView>, now: u64) -> Option<int> {
    first_claimable_from(s, now, 0)
}

/// The store and the claimed task after `worker` claims at `now`.
pub open spec fn claim_outcome(s: Seq<TaskView>, worker: Seq<char>, now: u64) -> (Seq<TaskView>, Option<TaskView>) {
    match claim_pick(s, now) {
        Some(k) => (s.update(k, claimed(s[k], worker, now)), Some(claimed(s[k], worker, now))),
        None => (s, None),
    }
}

/// The store and the result after restoring a saved task: it is added when
/// well formed and its id is free.
pub open spec fn restore_outcome(s: Seq<TaskView>, t: TaskView) -> (Seq<TaskView>, bool) {
    if task_ok(t) && !has_id(s, t.id) {
        (s.push(t), true)
    } else {
        (s, false)
    }
}

/// The store and the result after intake of a task under a given id.
pub open spec fn intake_outcome(
    s: Seq<TaskView>,
    id: Seq<char>,
    project_id: Seq<char>,
    title: Seq<char>,
    description: Seq<char>,
) -> (Seq<TaskView>, bool) {
    if has_id(s, id) {
        (s, false)
    } else {
        (s.push(fresh_task(id, project_id, title, description)), true)
    }
}

/// Applies `f` to the task with id `id` when it exists and `ok` holds of it;
/// otherwise leaves the store as it was and reports failure.
pub open spec fn settle(
    s: Seq<TaskView>,
    id: Seq<char>,
    ok: spec_fn(TaskView) -> bool,
    f: spec_fn(TaskView) -> TaskView,
) -> (Seq<TaskView>, bool) {
    if has_id(s, id) && ok(s[position(s, id)]) {
        (s.update(position(s, id), f(s[position(s, id)])), true)
    } else {
        (s, false)
    }
}

/// The store and the result after assigning task `id` to `bot` at `now`:
/// only an open task can be assigned.
pub open spec fn assign_outcome(s: Seq<TaskView>, id: Seq<char>, bot: Seq<char>, now: u64) -> (Seq<TaskView>, bool) {
    settle(
        s,
        id,
        |t: TaskView| allowed(t.status, Status::Assigned),
        |t: TaskView| held_by(t, bot, Status::Assigned, now),
    )
}

/// The task after its holder reports it delivered with `summary`.
pub open spec fn delivered(t: TaskView, summary: Seq<char>) -> TaskView {
    TaskView { status: Status::Delivered, delivery_summary: Some(summary), lease_expires_at: None, ..t }
}

/// The task after its holder reports failure with `error`.
pub open spec fn failed(t: TaskView, error: Seq<char>) -> TaskView {
    TaskView { status: Status::Failed, last_error: Some(error), lease_expires_at: None, ..t }
}

/// The store and the result after `worker` reports task `id` complete: it
/// must hold the task, and the task must be allowed to become delivered.
pub open spec fn complete_outcome(s: Seq<TaskView>, id: Seq<char>, worker: Seq<char>, summary: Seq<char>) -> (Seq<TaskView>, bool) {
    settle(
        s,
        id,
        |t: TaskView| t.assignee == Some(worker) && allowed(t.status, Status::Delivered),
        |t: TaskView| delivered(t, summary),
    )
}

/// The store and the result after `worker` reports task `id` failed: it must
/// hold the task, assigned or in progress.
pub open spec fn fail_outcome(s: Seq<TaskView>, id: Seq<char>, worker: Seq<char>, error: Seq<char>) -> (Seq<TaskView>, bool) {
    settle(
        s,
        id,
        |t: TaskView| t.assignee == Some(worker) && is_held(t.status),
        |t: TaskView| failed(t, error),
    )
}

/// A direct status change is allowed when the transition is; a move to
/// assigned needs an assignee and goes through assignment or claim instead.
pub open spec fn update_allowed(from: Status, to: Status) -> bool {
    allowed(from, to) && to != Status::Assigned
}

/// The task after a direct move to `to`: its lease survives only in a held
/// status.
pub open spec fn moved(t: TaskView, to: Status) -> TaskView {
    TaskView {
        status: to,
        lease_expires_at: if is_held(to) { t.lease_expires_at } else { None },
        ..t
    }
}

/// The store and the result after a direct status change of task `id` to
/// the status named by `text`.
pub open spec fn update_outcome(s: Seq<TaskView>, id: Seq<char>, text: Seq<char>) -> (Seq<TaskView>, bool) {
    match parse_status(text) {
        Some(to) => settle(
            s,
            id,
            |t: TaskView| update_allowed(t.status, to),
            |t: TaskView| moved(t, to),
        ),
        None => (s, false),
    }
}

/// The store and the result after task `id` is delivered with `summary`
/// outside the claim protocol.
pub open spec fn deliver_outcome(s: Seq<TaskView>, id: Seq<char>, summary: Seq<char>) -> (Seq<TaskView>, bool) {
    settle(
        s,
        id,
        |t: TaskView| allowed(t.status, Status::Delivered),
        |t: TaskView| delivered(t, summary),
    )
}

/// The task with id `id`, if any.
pub open spec fn lookup(s: Seq<TaskView>, id: Seq<char>) -> Option<TaskView> {
    if has_id(s, id) {
        Some(s[position(s, id)])
    } else {
        None
    }
}

/// `r` lists the tasks of `s`, each once, in ascending order of title.
pub open spec fn listed_by_title(r: Seq<TaskView>, s: Seq<TaskView>) -> bool {
    &&& rearranges(r, s)
    &&& forall|i: int, j: int| 0 <= i < j < r.len() ==> text_le(#[trigger] r[i].title, #[trigger] r[j].title)
}

/// With unique ids, the index of a task with a given id is its position.
pub proof fn lemma_position(s: Seq<TaskView>, id: Seq<char>, i: int)
    requires
        ids_unique(s),
        0 <= i < s.len(),
        s[i].id == id,
    ensures
        has_id(s, id),
        position(s, id) == i,
{
    assert(has_id(s, id));
}

/// The views of a sequence of tasks.
pub open spec fn views(v: Seq<Task>) -> Seq<TaskView> {
    v.map_values(|t: Task| t@)
}

/// All tasks of the service, in insertion order.
pub struct TaskStore {
    tasks: Vec<Task>,
}

impl View for TaskStore {
    type V = Seq<TaskView>;

    closed spec fn view(&self) -> Seq<TaskView> {
        views(self.tasks@)
    }
}

impl TaskStore {
    /// The store's invariant.
    pub open spec fn wf(&self) -> bool {
        store_ok(self@)
    }

    /// An empty store.
    pub fn new() -> (r: TaskStore)
        ensures
            r@ == Seq::<TaskView>::empty(),
            r.wf(),
    {
        let r = TaskStore { tasks: Vec::new() };
        assert(r@ =~= Seq::<TaskView>::empty());
        r
    }

    /// The number of tasks.
    pub fn len(&self) -> (r: usize)
        ensures
            r == self@.len(),
    {
        self.tasks.len()
    }

    /// The index of the task with id `id`, if any.
    fn find(&self, id: &str) -> (r: Option<usize>)
        requires
            self.wf(),
        ensures
            match r {
                Some(i) => has_id(self@, id@) && i == position(self@, id@) && i < self@.len(),
                None => !has_id(self@, id@),
            },
    {
        let n = self.tasks.len();
        let mut i: usize = 0;
        while i < n
            invariant
                self.wf(),
                n == self@.len(),
                self.tasks@.len() == n,
                0 <= i <= n,
                forall|j: int| 0 <= j < i ==> self@[j].id != id@,
            decreases n - i,
        {
            if text_equals(self.tasks[i].id.as_str(), id) {
                proof {
                    lemma_position(self@, id@, i as int);
                }
                return Some(i);
            }
            i += 1;
        }
        None
    }

    /// Replaces the task at index `i`.
    fn put(&mut self, i: usize, t: Task)
        requires
            i < old(self)@.len(),
        ensures
            final(self)@ == old(self)@.update(i as int, t@),
    {
        self.tasks.set(i, t);
        assert(self@ =~= old(self)@.update(i as int, t@));
    }

    /// The task with id `id`, if any.
    pub fn get(&self, id: &str) -> (r: Option<Task>)
        requires
            self.wf(),
        ensures
            task_opt(r) == lookup(self@, id@),
    {
        match self.find(id) {
            Some(i) => Some(self.tasks[i].clone()),
            None => None,
        }
    }

    /// All tasks, in insertion order.
    pub fn tasks(&self) -> (r: Vec<Task>)
        ensures
            views(r@) == self@,
    {
        let n = self.tasks.len();
        let mut r: Vec<Task> = Vec::new();
        let mut i: usize = 0;
        while i < n
            invariant
                n == self@.len(),
                self.tasks@.len() == n,
                0 <= i <= n,
                views(r@) == self@.subrange(0, i as int),
            decreases n - i,
        {
            let t = self.tasks[i].clone();
            assert(t@ == self@[i as int]);
            let ghost before = r@;
            r.push(t);
            assert(r@ == before.push(t));
            assert(views(r@) =~= views(before).push(t@));
            i += 1;
            assert(views(r@) =~= self@.subrange(0, i as int));
        }
        assert(self@.subrange(0, n as int) =~= self@);
        r
    }

    /// Adds a new open task under `id`, unless a task already has that id.
    pub fn intake_with_id(&mut self, id: String, project_id: String, title: String, description: String) -> (r: bool)
        requires
            old(self).wf(),
        ensures
            final(self).wf(),
            (final(self)@, r) == intake_outcome(old(self)@, id@, project_id@, title@, description@),
    {
        if self.find(id.as_str()).is_some() {
            return false;
        }
        let t = Task::new(id, project_id, title, description);
        self.tasks.push(t);
        assert(self@ =~= old(self)@.push(t@));
        assert forall|i: int, j: int|
            0 <= i < self@.len() && 0 <= j < self@.len() && #[trigger] self@[i].id
                == #[trigger] self@[j].id implies i == j by {
            if i < old(self)@.len() && j == old(self)@.len() {
                assert(old(self)@[i].id == t@.id);
            }
            if j < old(self)@.len() && i == old(self)@.len() {
                assert(old(self)@[j].id == t@.id);
            }
        }
        true
    }

    /// Hands task `i` to `worker` in `status` under a lease from `now`,
    /// with `attempts` as its new attempt count. Both assignment and claim go
    /// through here.
    fn take_hold(&mut self, i: usize, worker: &str, status: Status, now: u64, attempts: u32)
        requires
            old(self).wf(),
            i < old(self)@.len(),
            is_held(status),
        ensures
            final(self)@ == old(self)@.update(
                i as int,
                TaskView { attempts: attempts, ..held_by(old(self)@[i as int], worker@, status, now) },
            ),
            final(self).wf(),
    {
        let mut t = self.tasks[i].clone();
        t.status = status;
        t.assignee = Some(worker.to_string());
        t.lease_expires_at = Some(lease_end_at(now));
        t.attempts = attempts;
        assert(t@.assignee == Some(worker@));
        self.put(i, t);
        assert(forall|j: int| 0 <= j < self@.len() && j != i ==> self@[j] == old(self)@[j]);
    }

    /// Assigns task `id` to `bot` at `now`, under a fresh lease; fails when
    /// the task does not exist or is not open.
    pub fn assign_at(&mut self, id: &str, bot: &str, now: u64) -> (r: bool)
        requires
            old(self).wf(),
        ensures
            final(self).wf(),
            (final(self)@, r) == assign_outcome(old(self)@, id@, bot@, now),
    {
        match self.find(id) {
            Some(i) => {
                if self.tasks[i].status.can_move_to(Status::Assigned) {
                    let attempts = self.tasks[i].attempts;
                    self.take_hold(i, bot, Status::Assigned, now, attempts);
                    true
                } else {
                    false
                }
            },
            None => false,
        }
    }

    /// Gives `worker` the earliest task that is claimable at `now`: it
    /// becomes in progress, held by `worker` under a fresh lease, with one
    /// more attempt. Returns the claimed task, or `None` when no task is
    /// claimable.
    pub fn claim_at(&mut self, worker: &str, now: u64) -> (r: Option<Task>)
        requires
            old(self).wf(),
        ensures
            final(self).wf(),
            (final(self)@, task_opt(r)) == claim_outcome(old(self)@, worker@, now),
    {
        let n = self.tasks.len();
        let mut i: usize = 0;
        while i < n
            invariant
                self@ == old(self)@,
                self.wf(),
                n == self@.len(),
                self.tasks@.len() == n,
                0 <= i <= n,
                claim_pick(self@, now) == first_claimable_from(self@, now, i as int),
            decreases n - i,
        {
            if self.tasks[i].is_claimable(now) {
                let attempts = self.tasks[i].attempts.saturating_add(1);
                self.take_hold(i, worker, Status::InProgress, now, attempts);
                return Some(self.tasks[i].clone());
            }
            i += 1;
        }
        None
    }

    /// Replaces task `i` by a well-formed task with the same id.
    fn replace(&mut self, i: usize, t: Task)
        requires
            old(self).wf(),
            i < old(self)@.len(),
            t@.id == old(self)@[i as int].id,
            task_ok(t@),
        ensures
            final(self)@ == old(self)@.update(i as int, t@),
            final(self).wf(),
    {
        self.put(i, t);
        assert(forall|j: int| 0 <= j < self@.len() && j != i ==> self@[j] == old(self)@[j]);
    }

    /// Whether task `i` is held by `worker`.
    fn held_by_worker(&self, i: usize, worker: &str) -> (r: bool)
        requires
            i < self@.len(),
        ensures
            r == (self@[i as int].assignee == Some(worker@)),
    {
        match &self.tasks[i].assignee {
            Some(a) => text_equals(a.as_str(), worker),
            None => false,
        }
    }

    /// Marks task `i` delivered with `summary`, clearing its lease.
    fn mark_delivered(&mut self, i: usize, summary: String)
        requires
            old(self).wf(),
            i < old(self)@.len(),
            allowed(old(self)@[i as int].status, Status::Delivered),
        ensures
            final(self)@ == old(self)@.update(i as int, delivered(old(self)@[i as int], summary@)),
            final(self).wf(),
    {
        let mut t = self.tasks[i].clone();
        t.status = Status::Delivered;
        t.delivery_summary = Some(summary);
        t.lease_expires_at = None;
        assert(t@ == delivered(old(self)@[i as int], summary@));
        self.replace(i, t);
    }

    /// Records that `worker`, the holder of task `id`, has delivered it with
    /// `summary`: the task becomes delivered and its lease is cleared. Fails,
    /// changing nothing, when the task does not exist, `worker` does not hold
    /// it, or it cannot move to delivered (it is blocked, or already
    /// delivered or failed).
    pub fn complete(&mut self, id: &str, worker: &str, summary: String) -> (r: bool)
        requires
            old(self).wf(),
        ensures
            final(self).wf(),
            (final(self)@, r) == complete_outcome(old(self)@, id@, worker@, summary@),
    {
        match self.find(id) {
            Some(i) => {
                if self.held_by_worker(i, worker) && self.tasks[i].status.can_move_to(
                    Status::Delivered,
                ) {
                    self.mark_delivered(i, summary);
                    true
                } else {
                    false
                }
            },
            None => false,
        }
    }

    /// Records that `worker`, the holder of task `id`, has failed it with
    /// `error`: the task becomes failed and its lease is cleared. Fails,
    /// changing nothing, when the task does not exist, `worker` does not hold
    /// it, or it is neither assigned nor in progress.
    pub fn fail(&mut self, id: &str, worker: &str, error: String) -> (r: bool)
        requires
            old(self).wf(),
        ensures
            final(self).wf(),
            (final(self)@, r) == fail_outcome(old(self)@, id@, worker@, error@),
    {
        match self.find(id) {
            Some(i) => {
                let st = self.tasks[i].status;
                if self.held_by_worker(i, worker) && (st == Status::Assigned || st
                    == Status::InProgress) {
                    let mut t = self.tasks[i].clone();
                    t.status = Status::Failed;
                    t.last_error = Some(error);
                    t.lease_expires_at = None;
                    assert(t@ == failed(old(self)@[i as int], error@));
                    self.replace(i, t);
                    true
                } else {
                    false
                }
            },
            None => false,
        }
    }

    /// Moves task `id` directly to the status named by `status` (the legacy
    /// delivered form reads as delivered), when the transition is allowed and
    /// the target is not assigned. The lease survives only a move to a held
    /// status. Fails, changing nothing, otherwise.
    pub fn update_status(&mut self, id: &str, status: &str) -> (r: bool)
        requires
            old(self).wf(),
        ensures
            final(self).wf(),
            (final(self)@, r) == update_outcome(old(self)@, id@, status@),
    {
        let to = match Status::parse(status) {
            Some(to) => to,
            None => return false,
        };
        match self.find(id) {
            Some(i) => {
                if self.tasks[i].status.can_move_to(to) && to != Status::Assigned {
                    let mut t = self.tasks[i].clone();
                    t.status = to;
                    if to != Status::InProgress {
                        t.lease_expires_at = None;
                    }
                    assert(t@ == moved(old(self)@[i as int], to));
                    self.replace(i, t);
                    true
                } else {
                    false
                }
            },
            None => false,
        }
    }

    /// Delivers task `id` with `summary` outside the claim protocol, when its
    /// status may move to delivered; the lease is cleared. Fails, changing
    /// nothing, otherwise.
    pub fn deliver(&mut self, id: &str, summary: String) -> (r: bool)
        requires
            old(self).wf(),
        ensures
            final(self).wf(),
            (final(self)@, r) == deliver_outcome(old(self)@, id@, summary@),
    {
        match self.find(id) {
            Some(i) => {
                if self.tasks[i].status.can_move_to(Status::Delivered) {
                    self.mark_delivered(i, summary);
                    true
                } else {
                    false
                }
            },
            None => false,
        }
    }

    /// Adds a new open task under a freshly drawn id and returns that id.
    /// Returns `None`, changing nothing, only if the drawn id is already
    /// taken, which cannot happen in an empty store.
    pub fn intake(&mut self, project_id: String, title: String, description: String) -> (r: Option<String>)
        requires
            old(self).wf(),
        ensures
            final(self).wf(),
            match r {
                Some(id) => {
                    &&& !has_id(old(self)@, id@)
                    &&& final(self)@ == old(self)@.push(fresh_task(id@, project_id@, title@, description@))
                },
                None => final(self)@ == old(self)@ && old(self)@.len() > 0,
            },
    {
        let id = new_id();
        if self.intake_with_id(id.clone(), project_id, title, description) {
            Some(id)
        } else {
            None
        }
    }

    /// [`TaskStore::assign_at`] at the current time.
    pub fn assign(&mut self, id: &str, bot: &str) -> (r: bool)
        requires
            old(self).wf(),
        ensures
            final(self).wf(),
            exists|now: u64| (final(self)@, r) == #[trigger] assign_outcome(old(self)@, id@, bot@, now),
    {
        let now = now_secs();
        self.assign_at(id, bot, now)
    }

    /// [`TaskStore::claim_at`] at the current time.
    pub fn claim(&mut self, worker: &str) -> (r: Option<Task>)
        requires
            old(self).wf(),
        ensures
            final(self).wf(),
            exists|now: u64| (final(self)@, task_opt(r)) == #[trigger] claim_outcome(old(self)@, worker@, now),
    {
        let now = now_secs();
        self.claim_at(worker, now)
    }

    /// All tasks, in ascending order of title; tasks with equal titles keep
    /// their insertion order.
    pub fn list_tasks(&self) -> (r: Vec<Task>)
        ensures
            listed_by_title(views(r@), self@),
    {
        let n = self.tasks.len();
        let mut titles: Vec<String> = Vec::new();
        let mut i: usize = 0;
        while i < n
            invariant
                n == self@.len(),
                self.tasks@.len() == n,
                0 <= i <= n,
                titles@.len() == i,
                forall|j: int| 0 <= j < i ==> #[trigger] titles@[j]@ == self@[j].title,
            decreases n - i,
        {
            titles.push(self.tasks[i].title.clone());
            i += 1;
        }
        let order = sorted_order(&titles);
        let ghost keys = titles@.map_values(|k: String| k@);
        let mut r: Vec<Task> = Vec::new();
        let mut k: usize = 0;
        while k < n
            invariant
                n == self@.len(),
                self.tasks@.len() == n,
                titles@.len() == n,
                keys == titles@.map_values(|k: String| k@),
                forall|j: int| 0 <= j < n ==> #[trigger] titles@[j]@ == self@[j].title,
                crate::order::is_permutation(order@, n as nat),
                crate::order::sorts(order@, keys),
                0 <= k <= n,
                r@.len() == k,
                forall|j: int| 0 <= j < k ==> #[trigger] views(r@)[j] == self@[order@[j] as int],
            decreases n - k,
        {
            let t = self.tasks[order[k]].clone();
            let ghost before = r@;
            r.push(t);
            proof {
                assert forall|j: int| 0 <= j < k + 1 implies #[trigger] views(r@)[j] == self@[order@[j] as int] by {
                    if j < k {
                        assert(r@[j] == before[j]);
                        assert(views(before)[j] == self@[order@[j] as int]);
                    }
                }
            }
            k += 1;
        }
        proof {
            assert(arranged(views(r@), self@, order@));
            assert forall|i: int, j: int| 0 <= i < j < views(r@).len() implies text_le(
                #[trigger] views(r@)[i].title,
                #[trigger] views(r@)[j].title,
            ) by {
                assert(keys[order@[i] as int] == self@[order@[i] as int].title);
                assert(keys[order@[j] as int] == self@[order@[j] as int].title);
            }
        }
        r
    }

    /// Adds a saved task as it is, when it is well formed and its id is
    /// free; otherwise changes nothing and reports failure.
    pub fn restore(&mut self, t: Task) -> (r: bool)
        requires
            old(self).wf(),
        ensures
            final(self).wf(),
            (final(self)@, r) == restore_outcome(old(self)@, t@),
    {
        if !t.is_well_formed() || self.find(t.id.as_str()).is_some() {
            return false;
        }
        let ghost v = t@;
        self.tasks.push(t);
        assert(self@ =~= old(self)@.push(v));
        assert forall|i: int, j: int|
            0 <= i < self@.len() && 0 <= j < self@.len() && #[trigger] self@[i].id
                == #[trigger] self@[j].id implies i == j by {
            if i < old(self)@.len() && j == old(self)@.len() {
                assert(old(self)@[i].id == v.id);
            }
            if j < old(self)@.len() && i == old(self)@.len() {
                assert(old(self)@[j].id == v.id);
            }
        }
        true
    }
}

} // verus!
