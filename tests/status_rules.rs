use orchestrator::status::{can_transition, is_valid_status, legacy_summary, Status};

const NAMES: [&str; 7] = [
    "open",
    "assigned",
    "in_progress",
    "blocked",
    "review",
    "delivered",
    "failed",
];

const TABLE: [(&str, &str); 11] = [
    ("open", "assigned"),
    ("assigned", "in_progress"),
    ("assigned", "blocked"),
    ("assigned", "delivered"),
    ("in_progress", "blocked"),
    ("in_progress", "review"),
    ("in_progress", "delivered"),
    ("blocked", "in_progress"),
    ("blocked", "review"),
    ("review", "in_progress"),
    ("review", "delivered"),
];

#[test]
fn transitions_match_table_exactly() {
    for from in NAMES {
        for to in NAMES {
            let listed = TABLE.contains(&(from, to));
            assert_eq!(can_transition(from, to), listed, "{} -> {}", from, to);
        }
    }
}

#[test]
fn delivered_is_terminal() {
    for to in NAMES {
        assert!(!can_transition("delivered", to));
    }
    assert!(!can_transition("delivered: shipped", "review"));
}

#[test]
fn failed_is_neither_entered_nor_left() {
    for other in NAMES {
        assert!(!can_transition(other, "failed"));
        assert!(!can_transition("failed", other));
    }
}

#[test]
fn legacy_delivered_text_is_valid_and_normalizes() {
    assert!(is_valid_status("delivered: anything"));
    assert_eq!(Status::parse("delivered: anything"), Some(Status::Delivered));
    assert_eq!(Status::parse("delivered: "), Some(Status::Delivered));
    assert!(can_transition("review", "delivered: fixed it"));
    assert!(can_transition("assigned", "delivered: x"));
    assert!(!can_transition("open", "delivered: x"));
}

#[test]
fn unknown_texts_are_invalid() {
    assert!(!is_valid_status(""));
    assert!(!is_valid_status("Open"));
    assert!(!is_valid_status("done"));
    assert!(!is_valid_status("delivered:no-space"));
    assert!(!is_valid_status(" open"));
    assert!(!can_transition("open", "bogus"));
    assert!(!can_transition("bogus", "assigned"));
}

#[test]
fn every_status_name_reads_back() {
    for name in NAMES {
        let s = Status::parse(name).expect("a status name");
        assert_eq!(s.as_str(), name);
        assert!(is_valid_status(name));
    }
}

#[test]
fn can_move_to_matches_text_relation() {
    assert!(Status::Open.can_move_to(Status::Assigned));
    assert!(!Status::Open.can_move_to(Status::InProgress));
    assert!(Status::Blocked.can_move_to(Status::Review));
    assert!(!Status::Blocked.can_move_to(Status::Delivered));
    assert!(!Status::Review.can_move_to(Status::Blocked));
}

#[test]
fn legacy_summary_is_extracted() {
    assert_eq!(legacy_summary("delivered: fixed it"), Some("fixed it".to_string()));
    assert_eq!(legacy_summary("delivered: "), Some(String::new()));
    assert_eq!(legacy_summary("delivered"), None);
    assert_eq!(legacy_summary("open"), None);
}
