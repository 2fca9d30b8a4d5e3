//! The task status state machine: the closed set of statuses, how a status
//! is read from text (including the legacy `"delivered: <text>"` form), and
//! which transitions between statuses are allowed.
use vstd::prelude::*;
use crate::task::text_opt;
use crate::text::{is_prefix, starts_with, text_equals};
use vstd::string::*;

verus! {

/// A task's status.
///
/// `Delivered` is terminal. `Failed` is a second terminal outcome: it is
/// reached only through failure reporting by the holding worker, never
/// through the general transition relation, and nothing leaves it.
#[derive(Clone, Copy, Debug, PartialEq, Eq, Structural)]
pub enum Status {
    Open,
    Assigned,
    InProgress,
    Blocked,
    Review,
    Delivered,
    Failed,
}

/// The canonical text of each status.
pub open spec fn status_name(s: Status) -> Seq<char> {
    match s {
        Status::Open => "open"@,
        Status::Assigned => "assigned"@,
        Status::InProgress => "in_progress"@,
        Status::Blocked => "blocked"@,
        Status::Review => "review"@,
        Status::Delivered => "delivered"@,
        Status::Failed => "failed"@,
    }
}

/// The prefix of the legacy encoding that embedded a delivery summary in the
/// status text.
pub open spec fn legacy_delivered_prefix() -> Seq<char> {
    "delivered: "@
}

/// The status a text denotes, after normalizing the legacy delivered form.
pub open spec fn parse_status(s: Seq<char>) -> Option<Status> {
    if s == "open"@ {
        Some(Status::Open)
    } else if s == "assigned"@ {
        Some(Status::Assigned)
    } else if s == "in_progress"@ {
        Some(Status::InProgress)
    } else if s == "blocked"@ {
        Some(Status::Blocked)
    } else if s == "review"@ {
        Some(Status::Review)
    } else if s == "delivered"@ {
        Some(Status::Delivered)
    } else if s == "failed"@ {
        Some(Status::Failed)
    } else if is_prefix(legacy_delivered_prefix(), s) {
        Some(Status::Delivered)
    } else {
        None
    }
}

/// The allowed-transition relation.
pub open spec fn allowed(from: Status, to: Status) -> bool {
    match from {
        Status::Open => to == Status::Assigned,
        Status::Assigned => to == Status::InProgress || to == Status::Blocked || to
            == Status::Delivered,
        Status::InProgress => to == Status::Blocked || to == Status::Review || to
            == Status::Delivered,
        Status::Blocked => to == Status::InProgress || to == Status::Review,
        Status::Review => to == Status::InProgress || to == Status::Delivered,
        Status::Delivered => false,
        Status::Failed => false,
    }
}

/// Whether a task in this status is held by a worker under a possible lease.
pub open spec fn is_held(s: Status) -> bool {
    s == Status::Assigned || s == Status::InProgress
}

/// The transition relation between two status texts.
pub open spec fn text_transition(from: Seq<char>, to: Seq<char>) -> bool {
    match (parse_status(from), parse_status(to)) {
        (Some(a), Some(b)) => allowed(a, b),
        _ => false,
    }
}

impl Status {
    /// Reads a status from its text; the legacy `"delivered: <text>"` form
    /// reads as `Delivered`.
    pub fn parse(s: &str) -> (r: Option<Status>)
        ensures
            r == parse_status(s@),
    {
        if text_equals(s, "open") {
            Some(Status::Open)
        } else if text_equals(s, "assigned") {
            Some(Status::Assigned)
        } else if text_equals(s, "in_progress") {
            Some(Status::InProgress)
        } else if text_equals(s, "blocked") {
            Some(Status::Blocked)
        } else if text_equals(s, "review") {
            Some(Status::Review)
        } else if text_equals(s, "delivered") {
            Some(Status::Delivered)
        } else if text_equals(s, "failed") {
            Some(Status::Failed)
        } else if starts_with(s, "delivered: ") {
            Some(Status::Delivered)
        } else {
            None
        }
    }

    /// The canonical text of this status.
    pub fn as_str(&self) -> (r: &'static str)
        ensures
            r@ == status_name(*self),
    {
        match self {
            Status::Open => "open",
            Status::Assigned => "assigned",
            Status::InProgress => "in_progress",
            Status::Blocked => "blocked",
            Status::Review => "review",
            Status::Delivered => "delivered",
            Status::Failed => "failed",
        }
    }

    /// Whether the transition from this status to `to` is allowed.
    pub fn can_move_to(&self, to: Status) -> (r: bool)
        ensures
            r == allowed(*self, to),
    {
        match self {
            Status::Open => to == Status::Assigned,
            Status::Assigned => to == Status::InProgress || to == Status::Blocked || to
                == Status::Delivered,
            Status::InProgress => to == Status::Blocked || to == Status::Review || to
                == Status::Delivered,
            Status::Blocked => to == Status::InProgress || to == Status::Review,
            Status::Review => to == Status::InProgress || to == Status::Delivered,
            Status::Delivered => false,
            Status::Failed => false,
        }
    }
}

/// Whether a text names a status, the legacy delivered form included.
pub fn is_valid_status(s: &str) -> (r: bool)
    ensures
        r == parse_status(s@).is_some(),
{
    Status::parse(s).is_some()
}

/// Whether a task may move from the status named `from` to the one named
/// `to`; false when either text names no status.
pub fn can_transition(from: &str, to: &str) -> (r: bool)
    ensures
        r == text_transition(from@, to@),
{
    match (Status::parse(from), Status::parse(to)) {
        (Some(a), Some(b)) => a.can_move_to(b),
        _ => false,
    }
}

/// The summary a legacy `"delivered: <text>"` status carries, if the text
/// has that form.
pub open spec fn legacy_summary_of(s: Seq<char>) -> Option<Seq<char>> {
    if is_prefix(legacy_delivered_prefix(), s) {
        Some(s.skip(legacy_delivered_prefix().len() as int))
    } else {
        None
    }
}

/// The summary embedded in a legacy `"delivered: <text>"` status, for
/// moving it into the task's delivery summary when old records are read.
pub fn legacy_summary(s: &str) -> (r: Option<String>)
    ensures
        text_opt(r) == legacy_summary_of(s@),
{
    proof {
        reveal_strlit("delivered: ");
    }
    if starts_with(s, "delivered: ") {
        let n = s.unicode_len();
        Some(s.substring_char(11, n).to_string())
    } else {
        None
    }
}

/// The transition relation is exactly the table: open to assigned; assigned
/// to in progress, blocked or delivered; in progress to blocked, review or
/// delivered; blocked to in progress or review; review to in progress or
/// delivered. Nothing leaves delivered or failed, and nothing enters failed.
pub proof fn transition_table(from: Status, to: Status)
    ensures
        allowed(from, to) <==> {
            ||| from == Status::Open && to == Status::Assigned
            ||| from == Status::Assigned && to == Status::InProgress
            ||| from == Status::Assigned && to == Status::Blocked
            ||| from == Status::Assigned && to == Status::Delivered
            ||| from == Status::InProgress && to == Status::Blocked
            ||| from == Status::InProgress && to == Status::Review
            ||| from == Status::InProgress && to == Status::Delivered
            ||| from == Status::Blocked && to == Status::InProgress
            ||| from == Status::Blocked && to == Status::Review
            ||| from == Status::Review && to == Status::InProgress
            ||| from == Status::Review && to == Status::Delivered
        },
        !allowed(Status::Delivered, to),
        !allowed(Status::Failed, to),
        !allowed(from, Status::Failed),
{
}

/// Every canonical status text reads back as its status.
pub proof fn names_read_back(s: Status)
    ensures
        parse_status(status_name(s)) == Some(s),
{
    reveal_strlit("open");
    reveal_strlit("assigned");
    reveal_strlit("in_progress");
    reveal_strlit("blocked");
    reveal_strlit("review");
    reveal_strlit("delivered");
    reveal_strlit("failed");
    assert("open"@.len() == 4);
    assert("assigned"@.len() == 8);
    assert("in_progress"@.len() == 11);
    assert("blocked"@.len() == 7);
    assert("review"@.len() == 6);
    assert("delivered"@.len() == 9);
    assert("failed"@.len() == 6);
    assert("failed"@[0] != "review"@[0]);
}

/// Any text after the legacy `"delivered: "` prefix is a valid status and
/// normalizes to `Delivered`.
pub proof fn legacy_delivered_normalizes(note: Seq<char>)
    ensures
        parse_status(legacy_delivered_prefix() + note) == Some(Status::Delivered),
{
    reveal_strlit("open");
    reveal_strlit("assigned");
    reveal_strlit("in_progress");
    reveal_strlit("blocked");
    reveal_strlit("review");
    reveal_strlit("delivered");
    reveal_strlit("failed");
    reveal_strlit("delivered: ");
    let s = legacy_delivered_prefix() + note;
    assert(s[0] == 'd');
    assert(s[10] == ' ');
    assert(s.subrange(0, 11) =~= legacy_delivered_prefix());
    assert(s != "in_progress"@) by {
        assert("in_progress"@[0] == 'i');
    }
}

} // verus!
