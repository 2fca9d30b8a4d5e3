//! Properties of the claim protocol: which task a claim takes, mutual
//! exclusion under leases, recovery of lapsed leases, attempt counting, and
//! the holder check on completion and failure.
use vstd::prelude::*;
use crate::status::Status;
use crate::store::{
    claim_outcome, claim_pick, complete_outcome, fail_outcome, first_claimable_from, has_id,
    position, store_ok,
};
use crate::task::{TaskView, claimable, claimed, lease_end, lease_lapsed, next_attempt, task_ok};

verus! {

/// What [`first_claimable_from`] finds from index `i` on.
proof fn lemma_first_claimable_from(s: Seq<TaskView>, now: u64, i: int)
    requires
        0 <= i <= s.len(),
    ensures
        match first_claimable_from(s, now, i) {
            Some(k) => {
                &&& i <= k < s.len()
                &&& claimable(s[k], now)
                &&& forall|j: int| i <= j < k ==> !claimable(#[trigger] s[j], now)
            },
            None => forall|j: int| i <= j < s.len() ==> !claimable(#[trigger] s[j], now),
        },
    decreases s.len() - i,
{
    if i < s.len() {
        lemma_first_claimable_from(s, now, i + 1);
    }
}

/// A claim takes the earliest task claimable at `now`, and only a task with
/// no current lease: a task held under a lease that runs past `now` is never
/// handed out at `now`. When no task is claimable, a claim takes none.
pub proof fn claim_picks_earliest_unleased(s: Seq<TaskView>, now: u64)
    ensures
        match claim_pick(s, now) {
            Some(k) => {
                &&& 0 <= k < s.len()
                &&& claimable(s[k], now)
                &&& lease_lapsed(s[k], now)
                &&& forall|j: int| 0 <= j < k ==> !claimable(#[trigger] s[j], now)
            },
            None => forall|j: int| 0 <= j < s.len() ==> !claimable(#[trigger] s[j], now),
        },
{
    lemma_first_claimable_from(s, now, 0);
}

/// Two claims, the second made while the lease of the first is still
/// current, never hand out the same task.
pub proof fn claims_exclusive(s: Seq<TaskView>, w1: Seq<char>, t1: u64, w2: Seq<char>, t2: u64)
    requires
        store_ok(s),
        t2 < lease_end(t1),
    ensures
        ({
            let (s1, c1) = claim_outcome(s, w1, t1);
            let (s2, c2) = claim_outcome(s1, w2, t2);
            c1 is Some && c2 is Some ==> c1->0.id != c2->0.id
        }),
{
    claim_picks_earliest_unleased(s, t1);
    let s1 = claim_outcome(s, w1, t1).0;
    claim_picks_earliest_unleased(s1, t2);
    if let Some(k1) = claim_pick(s, t1) {
        if let Some(k2) = claim_pick(s1, t2) {
            assert(!claimable(s1[k1], t2));
            assert(k1 != k2);
            assert(s1[k2].id == s[k2].id);
            assert(s1[k1].id == s[k1].id);
        }
    }
}

/// Once a claim made at `t1` has run its lease, the task it took is
/// claimable again by any worker at any `t2` with `t2 >= t1 + 300`; a claim
/// at `t2` then takes a task, and takes that one when no earlier task is
/// claimable.
pub proof fn lease_reclaimable(s: Seq<TaskView>, w1: Seq<char>, t1: u64, w2: Seq<char>, t2: u64)
    requires
        store_ok(s),
        claim_pick(s, t1) is Some,
        t2 >= t1 + 300,
    ensures
        ({
            let k = claim_pick(s, t1)->0;
            let s1 = claim_outcome(s, w1, t1).0;
            &&& claimable(s1[k], t2)
            &&& claim_pick(s1, t2) is Some
            &&& (forall|j: int| 0 <= j < k ==> !claimable(#[trigger] s1[j], t2)) ==> claim_outcome(
                s1,
                w2,
                t2,
            ).1 == Some(claimed(s1[k], w2, t2))
        }),
{
    claim_picks_earliest_unleased(s, t1);
    let k = claim_pick(s, t1)->0;
    let s1 = claim_outcome(s, w1, t1).0;
    assert(s1[k].status == Status::InProgress);
    assert(claimable(s1[k], t2));
    claim_picks_earliest_unleased(s1, t2);
    if claim_pick(s1, t2) is None {
        assert(!claimable(s1[k], t2));
    }
    if forall|j: int| 0 <= j < k ==> !claimable(#[trigger] s1[j], t2) {
        let k2 = claim_pick(s1, t2)->0;
        if k2 < k {
            assert(!claimable(s1[k2], t2));
        }
        if k2 > k {
            assert(!claimable(s1[k], t2));
        }
    }
}

/// A successful claim counts exactly one more attempt on the task it takes
/// (while the counter is below its maximum) and changes no other task.
pub proof fn claim_counts_one_attempt(s: Seq<TaskView>, w: Seq<char>, now: u64)
    requires
        claim_pick(s, now) is Some,
    ensures
        ({
            let k = claim_pick(s, now)->0;
            let (s1, c) = claim_outcome(s, w, now);
            &&& c->0.attempts == next_attempt(s[k].attempts)
            &&& s[k].attempts < u32::MAX ==> c->0.attempts == s[k].attempts + 1
            &&& s1[k].attempts == c->0.attempts
            &&& forall|j: int| 0 <= j < s.len() && j != k ==> #[trigger] s1[j] == s[j]
        }),
{
    claim_picks_earliest_unleased(s, now);
}

/// Completion and failure reported by a worker that does not hold the task
/// fail and change nothing: status, lease, summary and error stay as they
/// were.
pub proof fn only_holder_settles(s: Seq<TaskView>, id: Seq<char>, worker: Seq<char>, text: Seq<char>)
    requires
        has_id(s, id),
        s[position(s, id)].assignee != Some(worker),
    ensures
        complete_outcome(s, id, worker, text) == (s, false),
        fail_outcome(s, id, worker, text) == (s, false),
{
}

/// A claim keeps the store's invariant and its length, and changes at most
/// the task it takes.
pub proof fn claim_keeps_store_ok(s: Seq<TaskView>, w: Seq<char>, now: u64)
    requires
        store_ok(s),
    ensures
        store_ok(claim_outcome(s, w, now).0),
        claim_outcome(s, w, now).0.len() == s.len(),
        forall|j: int| 0 <= j < s.len() ==> (#[trigger] claim_outcome(s, w, now).0[j]).id == s[j].id,
{
    claim_picks_earliest_unleased(s, now);
    let s1 = claim_outcome(s, w, now).0;
    if let Some(k) = claim_pick(s, now) {
        assert(task_ok(s1[k]));
        assert forall|i: int, j: int|
            0 <= i < s1.len() && 0 <= j < s1.len() && #[trigger] s1[i].id == #[trigger] s1[j].id implies i
            == j by {
            assert(s1[i].id == s[i].id);
            assert(s1[j].id == s[j].id);
        }
        assert forall|i: int| 0 <= i < s1.len() implies task_ok(#[trigger] s1[i]) by {
            if i != k {
                assert(s1[i] == s[i]);
            }
        }
    }
}

/// The store after serving the claim requests `reqs` (worker, time) in
/// order.
pub open spec fn after_claims(s: Seq<TaskView>, reqs: Seq<(Seq<char>, u64)>) -> Seq<TaskView>
    decreases reqs.len(),
{
    if reqs.len() == 0 {
        s
    } else {
        let r = reqs.last();
        claim_outcome(after_claims(s, reqs.drop_last()), r.0, r.1).0
    }
}

/// The task handed out by the `i`-th of the claim requests `reqs`.
pub open spec fn handed_out(s: Seq<TaskView>, reqs: Seq<(Seq<char>, u64)>, i: int) -> Option<TaskView> {
    claim_outcome(after_claims(s, reqs.take(i)), reqs[i].0, reqs[i].1).1
}

/// The index of the task handed out by the `i`-th request.
pub open spec fn handed_index(s: Seq<TaskView>, reqs: Seq<(Seq<char>, u64)>, i: int) -> Option<int> {
    claim_pick(after_claims(s, reqs.take(i)), reqs[i].1)
}

proof fn lemma_after_claims_ok(s: Seq<TaskView>, reqs: Seq<(Seq<char>, u64)>)
    requires
        store_ok(s),
    ensures
        store_ok(after_claims(s, reqs)),
        after_claims(s, reqs).len() == s.len(),
        forall|j: int| 0 <= j < s.len() ==> (#[trigger] after_claims(s, reqs)[j]).id == s[j].id,
    decreases reqs.len(),
{
    if reqs.len() > 0 {
        let prev = after_claims(s, reqs.drop_last());
        lemma_after_claims_ok(s, reqs.drop_last());
        claim_keeps_store_ok(prev, reqs.last().0, reqs.last().1);
    }
}

proof fn lemma_take_step(reqs: Seq<(Seq<char>, u64)>, m: int)
    requires
        0 <= m < reqs.len(),
    ensures
        reqs.take(m + 1).drop_last() == reqs.take(m),
        reqs.take(m + 1).last() == reqs[m],
{
    assert(reqs.take(m + 1).drop_last() =~= reqs.take(m));
}

/// Between the `i`-th request, which took task `k`, and request `m`: either
/// task `k` still carries the lease the `i`-th request gave it, or some
/// request at or after the end of that lease has taken it again.
proof fn lemma_lease_held_until(s: Seq<TaskView>, reqs: Seq<(Seq<char>, u64)>, i: int, k: int, m: int)
    requires
        store_ok(s),
        0 <= i < m <= reqs.len(),
        handed_index(s, reqs, i) == Some(k),
        forall|a: int, b: int| 0 <= a < b < reqs.len() ==> #[trigger] reqs[a].1 <= #[trigger] reqs[b].1,
    ensures
        0 <= k < s.len(),
        ({
            let t = after_claims(s, reqs.take(m))[k];
            ||| t.status == crate::status::Status::InProgress && t.lease_expires_at == Some(
                lease_end(reqs[i].1),
            )
            ||| (m < reqs.len() ==> reqs[m].1 >= lease_end(reqs[i].1))
        }),
    decreases m - i,
{
    lemma_after_claims_ok(s, reqs.take(i));
    let si = after_claims(s, reqs.take(i));
    claim_picks_earliest_unleased(si, reqs[i].1);
    lemma_take_step(reqs, i);
    if m == i + 1 {
        assert(after_claims(s, reqs.take(m)) == claim_outcome(si, reqs[i].0, reqs[i].1).0);
    } else {
        lemma_lease_held_until(s, reqs, i, k, m - 1);
        lemma_take_step(reqs, m - 1);
        lemma_after_claims_ok(s, reqs.take(m - 1));
        let sp = after_claims(s, reqs.take(m - 1));
        let tp = sp[k];
        claim_picks_earliest_unleased(sp, reqs[m - 1].1);
        assert(after_claims(s, reqs.take(m)) == claim_outcome(sp, reqs[m - 1].0, reqs[m - 1].1).0);
        if m < reqs.len() {
            assert(reqs[m - 1].1 <= reqs[m].1);
        }
        if claim_pick(sp, reqs[m - 1].1) == Some(k) {
            if tp.status == crate::status::Status::InProgress && tp.lease_expires_at == Some(
                lease_end(reqs[i].1),
            ) {
                assert(lease_lapsed(tp, reqs[m - 1].1));
            }
        }
    }
}

/// Claim mutual exclusion: over any run of claim requests served in order
/// of a clock that does not go back, a task handed out by one request is
/// handed out by a later one only once the lease from the first has run
/// out. So at no time do two callers hold the same task under current
/// leases.
pub proof fn claims_never_share_a_lease(s: Seq<TaskView>, reqs: Seq<(Seq<char>, u64)>, i: int, j: int)
    requires
        store_ok(s),
        0 <= i < j < reqs.len(),
        forall|a: int, b: int| 0 <= a < b < reqs.len() ==> #[trigger] reqs[a].1 <= #[trigger] reqs[b].1,
        handed_out(s, reqs, i) is Some,
        handed_out(s, reqs, j) is Some,
        handed_out(s, reqs, i)->0.id == handed_out(s, reqs, j)->0.id,
    ensures
        reqs[j].1 >= lease_end(reqs[i].1),
{
    lemma_after_claims_ok(s, reqs.take(i));
    lemma_after_claims_ok(s, reqs.take(j));
    let si = after_claims(s, reqs.take(i));
    let sj = after_claims(s, reqs.take(j));
    claim_picks_earliest_unleased(si, reqs[i].1);
    claim_picks_earliest_unleased(sj, reqs[j].1);
    let k = claim_pick(si, reqs[i].1)->0;
    let kj = claim_pick(sj, reqs[j].1)->0;
    assert(si[k].id == s[k].id);
    assert(sj[kj].id == s[kj].id);
    assert(kj == k);
    lemma_lease_held_until(s, reqs, i, k, j);
}

} // verus!
