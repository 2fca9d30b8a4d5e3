use orchestrator::status::Status;
use orchestrator::store::TaskStore;
use orchestrator::task::{Task, LEASE_SECS};

fn store_with(ids: &[&str]) -> TaskStore {
    let mut store = TaskStore::new();
    for id in ids {
        assert!(store.intake_with_id(
            id.to_string(),
            "p1".to_string(),
            format!("title {}", id),
            "desc".to_string(),
        ));
    }
    store
}

#[test]
fn intake_claim_complete_scenario() {
    let mut store = TaskStore::new();
    assert!(store.intake_with_id(
        "T1".to_string(),
        "p1".to_string(),
        "Fix bug".to_string(),
        "desc".to_string()
    ));
    let t = store.get("T1").unwrap();
    assert_eq!(t.status, Status::Open);
    assert_eq!(t.assignee, None);
    assert_eq!(t.lease_expires_at, None);
    assert_eq!(t.attempts, 0);

    let now = 1_000;
    let c = store.claim_at("w1", now).expect("a task");
    assert_eq!(c.id, "T1");
    assert_eq!(c.status, Status::InProgress);
    assert_eq!(c.assignee.as_deref(), Some("w1"));
    assert_eq!(c.attempts, 1);
    assert_eq!(c.lease_expires_at, Some(now + 300));

    assert!(store.complete("T1", "w1", "fixed it".to_string()));
    let t = store.get("T1").unwrap();
    assert_eq!(t.status, Status::Delivered);
    assert_eq!(t.delivery_summary.as_deref(), Some("fixed it"));
    assert_eq!(t.lease_expires_at, None);
}

#[test]
fn second_claim_within_lease_gets_nothing() {
    let mut store = store_with(&["T1"]);
    let now = 5_000;
    assert!(store.claim_at("w1", now).is_some());
    assert!(store.claim_at("w2", now).is_none());
    assert!(store.claim_at("w2", now + 299).is_none());
    let t = store.get("T1").unwrap();
    assert_eq!(t.assignee.as_deref(), Some("w1"));
    assert_eq!(t.attempts, 1);
}

#[test]
fn expired_lease_is_reclaimed_by_another_worker() {
    let mut store = store_with(&["T1"]);
    let now = 5_000;
    assert!(store.claim_at("w1", now).is_some());
    let c = store.claim_at("w2", now + 301).expect("lease ran out");
    assert_eq!(c.id, "T1");
    assert_eq!(c.assignee.as_deref(), Some("w2"));
    assert_eq!(c.attempts, 2);
    assert_eq!(c.lease_expires_at, Some(now + 301 + LEASE_SECS));
}

#[test]
fn lease_is_claimable_exactly_at_expiry() {
    let mut store = store_with(&["T1"]);
    assert!(store.claim_at("w1", 10).is_some());
    assert!(store.claim_at("w2", 309).is_none());
    let c = store.claim_at("w2", 310).expect("lease ends at 310");
    assert_eq!(c.attempts, 2);
}

#[test]
fn assign_on_delivered_task_fails_and_changes_nothing() {
    let mut store = store_with(&["T1"]);
    assert!(store.claim_at("w1", 100).is_some());
    assert!(store.complete("T1", "w1", "done".to_string()));
    let before = store.get("T1").unwrap();
    assert!(!store.assign_at("T1", "bot-x", 200));
    let after = store.get("T1").unwrap();
    assert_eq!(after.status, Status::Delivered);
    assert_eq!(after.assignee, before.assignee);
    assert_eq!(after.lease_expires_at, before.lease_expires_at);
    assert_eq!(after.delivery_summary, before.delivery_summary);
    assert_eq!(after.attempts, before.attempts);
}

#[test]
fn concurrent_claims_never_share_a_task() {
    let ids = ["A", "B", "C"];
    let mut store = store_with(&ids);
    let mut seen: Vec<String> = Vec::new();
    for w in ["w1", "w2", "w3", "w4", "w5"] {
        if let Some(t) = store.claim_at(w, 42) {
            assert!(!seen.contains(&t.id));
            seen.push(t.id.clone());
        }
    }
    assert_eq!(seen, vec!["A".to_string(), "B".to_string(), "C".to_string()]);
}

#[test]
fn claims_take_tasks_in_insertion_order() {
    let mut store = store_with(&["z", "a", "m"]);
    assert_eq!(store.claim_at("w1", 0).unwrap().id, "z");
    assert_eq!(store.claim_at("w2", 0).unwrap().id, "a");
    assert_eq!(store.claim_at("w3", 0).unwrap().id, "m");
    assert!(store.claim_at("w4", 0).is_none());
}

#[test]
fn claim_on_empty_store_gets_nothing() {
    let mut store = TaskStore::new();
    assert!(store.claim_at("w1", 0).is_none());
    assert_eq!(store.len(), 0);
}

#[test]
fn assigned_task_is_claimable_after_its_lease() {
    let mut store = store_with(&["T1"]);
    assert!(store.assign_at("T1", "bot-x", 1_000));
    let t = store.get("T1").unwrap();
    assert_eq!(t.status, Status::Assigned);
    assert_eq!(t.assignee.as_deref(), Some("bot-x"));
    assert_eq!(t.lease_expires_at, Some(1_300));
    assert_eq!(t.attempts, 0);
    assert!(store.claim_at("w1", 1_299).is_none());
    let c = store.claim_at("w1", 1_300).unwrap();
    assert_eq!(c.assignee.as_deref(), Some("w1"));
    assert_eq!(c.attempts, 1);
}

#[test]
fn assign_only_from_open() {
    let mut store = store_with(&["T1"]);
    assert!(!store.assign_at("missing", "bot-x", 0));
    assert!(store.assign_at("T1", "bot-x", 0));
    assert!(!store.assign_at("T1", "bot-y", 1_000));
    assert_eq!(store.get("T1").unwrap().assignee.as_deref(), Some("bot-x"));
}

#[test]
fn lease_saturates_at_clock_end() {
    let mut store = store_with(&["T1"]);
    let c = store.claim_at("w1", u64::MAX - 10).unwrap();
    assert_eq!(c.lease_expires_at, Some(u64::MAX));
}

#[test]
fn complete_by_other_worker_fails_and_changes_nothing() {
    let mut store = store_with(&["T1"]);
    assert!(store.claim_at("w1", 50).is_some());
    assert!(!store.complete("T1", "w2", "stolen".to_string()));
    let t = store.get("T1").unwrap();
    assert_eq!(t.status, Status::InProgress);
    assert_eq!(t.lease_expires_at, Some(350));
    assert_eq!(t.delivery_summary, None);
    assert!(!store.complete("missing", "w1", "x".to_string()));
}

#[test]
fn fail_by_other_worker_fails_and_changes_nothing() {
    let mut store = store_with(&["T1"]);
    assert!(store.claim_at("w1", 50).is_some());
    assert!(!store.fail("T1", "w2", "boom".to_string()));
    let t = store.get("T1").unwrap();
    assert_eq!(t.status, Status::InProgress);
    assert_eq!(t.lease_expires_at, Some(350));
    assert_eq!(t.last_error, None);
}

#[test]
fn fail_by_holder_is_terminal() {
    let mut store = store_with(&["T1"]);
    assert!(store.claim_at("w1", 50).is_some());
    assert!(store.fail("T1", "w1", "boom".to_string()));
    let t = store.get("T1").unwrap();
    assert_eq!(t.status, Status::Failed);
    assert_eq!(t.last_error.as_deref(), Some("boom"));
    assert_eq!(t.lease_expires_at, None);
    assert!(store.claim_at("w2", 10_000).is_none());
    assert!(!store.fail("T1", "w1", "again".to_string()));
    assert!(!store.complete("T1", "w1", "late".to_string()));
    assert!(!store.update_status("T1", "in_progress"));
}

#[test]
fn complete_twice_is_rejected() {
    let mut store = store_with(&["T1"]);
    assert!(store.claim_at("w1", 0).is_some());
    assert!(store.complete("T1", "w1", "first".to_string()));
    assert!(!store.complete("T1", "w1", "second".to_string()));
    assert_eq!(store.get("T1").unwrap().delivery_summary.as_deref(), Some("first"));
}

#[test]
fn update_status_follows_table_and_clears_lease() {
    let mut store = store_with(&["T1"]);
    assert!(!store.update_status("T1", "assigned"));
    assert!(!store.update_status("T1", "in_progress"));
    assert!(store.claim_at("w1", 0).is_some());
    assert!(!store.update_status("T1", "nonsense"));
    assert!(!store.update_status("missing", "blocked"));
    assert!(store.update_status("T1", "blocked"));
    let t = store.get("T1").unwrap();
    assert_eq!(t.status, Status::Blocked);
    assert_eq!(t.lease_expires_at, None);
    assert_eq!(t.assignee.as_deref(), Some("w1"));
    assert!(!store.update_status("T1", "delivered"));
    assert!(store.update_status("T1", "review"));
    assert!(store.update_status("T1", "delivered: legacy summary"));
    assert_eq!(store.get("T1").unwrap().status, Status::Delivered);
    assert!(store.claim_at("w2", 1_000).is_none());
}

#[test]
fn update_to_in_progress_keeps_lease() {
    let mut store = store_with(&["T1"]);
    assert!(store.assign_at("T1", "bot", 100));
    assert!(store.update_status("T1", "in_progress"));
    let t = store.get("T1").unwrap();
    assert_eq!(t.status, Status::InProgress);
    assert_eq!(t.lease_expires_at, Some(400));
}

#[test]
fn deliver_needs_a_transition_to_delivered() {
    let mut store = store_with(&["T1"]);
    assert!(!store.deliver("T1", "too early".to_string()));
    assert_eq!(store.get("T1").unwrap().status, Status::Open);
    assert!(store.assign_at("T1", "bot", 0));
    assert!(store.deliver("T1", "shipped".to_string()));
    let t = store.get("T1").unwrap();
    assert_eq!(t.status, Status::Delivered);
    assert_eq!(t.delivery_summary.as_deref(), Some("shipped"));
    assert_eq!(t.lease_expires_at, None);
    assert!(!store.deliver("missing", "x".to_string()));
}

#[test]
fn intake_rejects_a_taken_id() {
    let mut store = store_with(&["T1"]);
    assert!(!store.intake_with_id(
        "T1".to_string(),
        "p2".to_string(),
        "other".to_string(),
        "d".to_string()
    ));
    assert_eq!(store.len(), 1);
    assert_eq!(store.get("T1").unwrap().project_id, "p1");
}

#[test]
fn intake_draws_a_fresh_id() {
    let mut store = TaskStore::new();
    let a = store.intake("p".to_string(), "a".to_string(), "d".to_string()).unwrap();
    let b = store.intake("p".to_string(), "b".to_string(), "d".to_string()).unwrap();
    assert_ne!(a, b);
    assert_eq!(a.len(), 36);
    assert_eq!(store.get(&a).unwrap().title, "a");
    assert_eq!(store.get(&b).unwrap().status, Status::Open);
}

#[test]
fn claim_and_assign_with_the_clock() {
    let mut store = store_with(&["T1", "T2"]);
    assert!(store.assign("T1", "bot"));
    let c = store.claim("w1").unwrap();
    assert_eq!(c.id, "T2");
    assert!(c.lease_expires_at.unwrap() >= LEASE_SECS);
    assert!(store.claim("w2").is_none());
}

#[test]
fn list_tasks_sorted_by_title() {
    let mut store = TaskStore::new();
    for (id, title) in [("1", "beta"), ("2", "Alpha"), ("3", "alpha"), ("4", "beta"), ("5", "")] {
        assert!(store.intake_with_id(id.to_string(), "p".to_string(), title.to_string(), String::new()));
    }
    let listed: Vec<(String, String)> =
        store.list_tasks().into_iter().map(|t| (t.title, t.id)).collect();
    let expected: Vec<(String, String)> = [("", "5"), ("Alpha", "2"), ("alpha", "3"), ("beta", "1"), ("beta", "4")]
        .iter()
        .map(|(t, i)| (t.to_string(), i.to_string()))
        .collect();
    assert_eq!(listed, expected);
    let all: Vec<String> = store.tasks().into_iter().map(|t| t.id).collect();
    assert_eq!(all, vec!["1", "2", "3", "4", "5"]);
}

fn saved(id: &str, status: Status, assignee: Option<&str>, lease: Option<u64>) -> Task {
    Task {
        id: id.to_string(),
        project_id: "p".to_string(),
        title: "t".to_string(),
        description: "d".to_string(),
        status,
        assignee: assignee.map(|a| a.to_string()),
        lease_expires_at: lease,
        attempts: 3,
        last_error: None,
        delivery_summary: None,
    }
}

#[test]
fn restore_keeps_consistent_records_only() {
    let mut store = TaskStore::new();
    assert!(store.restore(saved("a", Status::InProgress, Some("w"), Some(700))));
    assert!(!store.restore(saved("a", Status::Open, None, None)));
    assert!(!store.restore(saved("b", Status::Open, Some("w"), None)));
    assert!(!store.restore(saved("c", Status::Blocked, None, None)));
    assert!(!store.restore(saved("d", Status::Review, Some("w"), Some(5))));
    assert!(store.restore(saved("e", Status::Delivered, None, None)));
    assert_eq!(store.len(), 2);
    let t = store.get("a").unwrap();
    assert_eq!(t.attempts, 3);
    assert_eq!(t.lease_expires_at, Some(700));
    assert!(store.claim_at("w2", 699).is_none());
    assert_eq!(store.claim_at("w2", 700).unwrap().attempts, 4);
}
