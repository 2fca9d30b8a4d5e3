//! Company structure records: role tiers and how many positions of each a
//! company of a given size needs, and the records of work items with their
//! deliverables and assignments.
use vstd::prelude::*;
use crate::text::{
    parse_count, parse_decimal, split, split_text, text_equals, text_views, trim, trimmed,
};

verus! {

/// A tier of role in the company.
#[derive(Clone, Copy, Debug, PartialEq, Eq, Hash, Structural)]
pub enum RoleTier {
    Employee,
    Manager,
    SeniorManager,
    Director,
    CSuite,
    President,
    CoPresident,
    CEO,
    BoardSeat,
}

/// The status of a work item.
#[derive(Clone, Copy, Debug, PartialEq, Eq, Structural)]
pub enum TaskStatus {
    Draft,
    Ready,
    InProgress,
    Review,
    Done,
    Blocked,
}

/// A deliverable of a work item, with its size budget.
#[derive(Debug)]
pub struct Deliverable {
    pub description: String,
    pub max_loc: usize,
    pub tests_required: bool,
}

/// An assignment of a work item to someone in a role.
#[derive(Debug)]
pub struct TaskAssignment {
    pub assignee_id: String,
    pub role: String,
    pub status: TaskStatus,
}

impl Clone for Deliverable {
    fn clone(&self) -> (r: Deliverable)
        ensures
            r.description@ == self.description@,
            r.max_loc == self.max_loc,
            r.tests_required == self.tests_required,
    {
        Deliverable {
            description: self.description.clone(),
            max_loc: self.max_loc,
            tests_required: self.tests_required,
        }
    }
}

impl Clone for TaskAssignment {
    fn clone(&self) -> (r: TaskAssignment)
        ensures
            r.assignee_id@ == self.assignee_id@,
            r.role@ == self.role@,
            r.status == self.status,
    {
        TaskAssignment { assignee_id: self.assignee_id.clone(), role: self.role.clone(), status: self.status }
    }
}

/// The canonical name of each tier.
pub open spec fn role_name(r: RoleTier) -> Seq<char> {
    match r {
        RoleTier::Employee => "employee"@,
        RoleTier::Manager => "manager"@,
        RoleTier::SeniorManager => "senior_manager"@,
        RoleTier::Director => "director"@,
        RoleTier::CSuite => "csuite"@,
        RoleTier::President => "president"@,
        RoleTier::CoPresident => "co_president"@,
        RoleTier::CEO => "ceo"@,
        RoleTier::BoardSeat => "board_seat"@,
    }
}

/// The tier a lower-case name denotes, accepting the usual alternative
/// spellings.
pub open spec fn role_from_name(t: Seq<char>) -> Option<RoleTier> {
    if t == "employee"@ {
        Some(RoleTier::Employee)
    } else if t == "manager"@ {
        Some(RoleTier::Manager)
    } else if t == "senior_manager"@ || t == "seniormanager"@ {
        Some(RoleTier::SeniorManager)
    } else if t == "director"@ {
        Some(RoleTier::Director)
    } else if t == "csuite"@ || t == "c_suite"@ {
        Some(RoleTier::CSuite)
    } else if t == "president"@ {
        Some(RoleTier::President)
    } else if t == "co_president"@ || t == "copresident"@ {
        Some(RoleTier::CoPresident)
    } else if t == "ceo"@ {
        Some(RoleTier::CEO)
    } else if t == "board_seat"@ || t == "board"@ {
        Some(RoleTier::BoardSeat)
    } else {
        None
    }
}

/// What `str::to_lowercase` makes of a text.
pub uninterp spec fn lower_of(s: Seq<char>) -> Seq<char>;

/// Relies on `str::to_lowercase`: the lower-case form of a text, which
/// depends on its characters alone.
#[verifier::external_body]
fn lowercase(s: &str) -> (r: String)
    ensures
        r@ == lower_of(s@),
{
    s.to_lowercase()
}

impl RoleTier {
    /// The canonical name of this tier.
    pub fn as_str(&self) -> (r: &'static str)
        ensures
            r@ == role_name(*self),
    {
        match self {
            RoleTier::Employee => "employee",
            RoleTier::Manager => "manager",
            RoleTier::SeniorManager => "senior_manager",
            RoleTier::Director => "director",
            RoleTier::CSuite => "csuite",
            RoleTier::President => "president",
            RoleTier::CoPresident => "co_president",
            RoleTier::CEO => "ceo",
            RoleTier::BoardSeat => "board_seat",
        }
    }

    /// The tier named by a lower-case text, alternative spellings included.
    pub fn from_lowercase(t: &str) -> (r: Option<RoleTier>)
        ensures
            r == role_from_name(t@),
    {
        if text_equals(t, "employee") {
            Some(RoleTier::Employee)
        } else if text_equals(t, "manager") {
            Some(RoleTier::Manager)
        } else if text_equals(t, "senior_manager") || text_equals(t, "seniormanager") {
            Some(RoleTier::SeniorManager)
        } else if text_equals(t, "director") {
            Some(RoleTier::Director)
        } else if text_equals(t, "csuite") || text_equals(t, "c_suite") {
            Some(RoleTier::CSuite)
        } else if text_equals(t, "president") {
            Some(RoleTier::President)
        } else if text_equals(t, "co_president") || text_equals(t, "copresident") {
            Some(RoleTier::CoPresident)
        } else if text_equals(t, "ceo") {
            Some(RoleTier::CEO)
        } else if text_equals(t, "board_seat") || text_equals(t, "board") {
            Some(RoleTier::BoardSeat)
        } else {
            None
        }
    }

    /// The tier named by a text in any letter case; the error names the
    /// text that was not understood.
    pub fn parse(s: &str) -> (r: Result<RoleTier, String>)
        ensures
            match r {
                Ok(t) => role_from_name(lower_of(s@)) == Some(t),
                Err(e) => role_from_name(lower_of(s@)) is None && e@ == "Unknown role: "@ + s@,
            },
    {
        let lower = lowercase(s);
        match RoleTier::from_lowercase(lower.as_str()) {
            Some(t) => Ok(t),
            None => {
                let prefix = "Unknown role: ".to_string();
                Err(prefix.concat(s))
            },
        }
    }
}

impl std::str::FromStr for RoleTier {
    type Err = String;

    fn from_str(s: &str) -> Result<RoleTier, String> {
        RoleTier::parse(s)
    }
}

/// How many positions of each tier a company of `employees` needs: a
/// manager per ten employees, a senior manager and a director per ten
/// managers, a C-suite seat per five directors, a board seat per ten
/// thousand employees, and one each of CEO, president and co-president.
pub open spec fn position_plan(employees: usize) -> Seq<(RoleTier, usize)> {
    let managers = employees / 10;
    let directors = managers / 10;
    seq![
        (RoleTier::Manager, managers),
        (RoleTier::SeniorManager, managers / 10),
        (RoleTier::Director, directors),
        (RoleTier::CSuite, directors / 5),
        (RoleTier::BoardSeat, employees / 10000),
        (RoleTier::CEO, 1usize),
        (RoleTier::President, 1usize),
        (RoleTier::CoPresident, 1usize),
    ]
}

/// The number of positions of each tier, other than employee, that a
/// company of `employee_count` needs.
pub fn required_positions(employee_count: usize) -> (r: Vec<(RoleTier, usize)>)
    ensures
        r@ == position_plan(employee_count),
{
    let managers = employee_count / 10;
    let senior_managers = managers / 10;
    let directors = managers / 10;
    let csuite = directors / 5;
    let board_seats = employee_count / 10_000;
    let r = vec![
        (RoleTier::Manager, managers),
        (RoleTier::SeniorManager, senior_managers),
        (RoleTier::Director, directors),
        (RoleTier::CSuite, csuite),
        (RoleTier::BoardSeat, board_seats),
        (RoleTier::CEO, 1),
        (RoleTier::President, 1),
        (RoleTier::CoPresident, 1),
    ];
    assert(r@ =~= position_plan(employee_count));
    r
}

/// The non-empty trimmed forms of `pieces`, in order.
pub open spec fn kept_items(pieces: Seq<Seq<char>>) -> Seq<Seq<char>>
    decreases pieces.len(),
{
    if pieces.len() == 0 {
        Seq::empty()
    } else {
        let r = kept_items(pieces.drop_last());
        let t = trimmed(pieces.last());
        if t.len() > 0 {
            r.push(t)
        } else {
            r
        }
    }
}

/// The items of a definition of done written as `item|item|...`.
pub open spec fn dod_items(raw: Seq<char>) -> Seq<Seq<char>> {
    kept_items(split_text(raw, '|'))
}

/// Reads a definition of done written as `item|item|...`: each item
/// trimmed, empty items dropped.
pub fn parse_dod(raw: &str) -> (r: Vec<String>)
    ensures
        text_views(r@) == dod_items(raw@),
{
    let pieces = split(raw, '|');
    let ghost ps = text_views(pieces@);
    let mut r: Vec<String> = Vec::new();
    let mut i: usize = 0;
    assert(ps.subrange(0, 0) =~= Seq::<Seq<char>>::empty());
    while i < pieces.len()
        invariant
            ps == text_views(pieces@),
            0 <= i <= pieces@.len(),
            text_views(r@) == kept_items(ps.subrange(0, i as int)),
        decreases pieces@.len() - i,
    {
        let t = trim(pieces[i].as_str());
        assert(ps.subrange(0, i + 1).drop_last() =~= ps.subrange(0, i as int));
        assert(ps.subrange(0, i + 1).last() == pieces@[i as int]@);
        if t.as_str().unicode_len() > 0 {
            let ghost before = r@;
            r.push(t);
            assert(text_views(r@) =~= text_views(before).push(t@));
        }
        i += 1;
    }
    assert(ps.subrange(0, pieces@.len() as int) =~= ps);
    r
}

/// The description and size budget a chunk `description:count[:...]`
/// denotes; none when it has no `:` or the count does not read.
pub open spec fn deliverable_of(chunk: Seq<char>) -> Option<(Seq<char>, usize)> {
    let parts = split_text(chunk, ':');
    if parts.len() >= 2 {
        match parse_count(parts[1]) {
            Some(n) => Some((trimmed(parts[0]), n)),
            None => None,
        }
    } else {
        None
    }
}

/// The deliverables that the chunks denote, skipping those that do not read.
pub open spec fn deliverables_from(chunks: Seq<Seq<char>>) -> Seq<(Seq<char>, usize)>
    decreases chunks.len(),
{
    if chunks.len() == 0 {
        Seq::empty()
    } else {
        let r = deliverables_from(chunks.drop_last());
        match deliverable_of(chunks.last()) {
            Some(d) => r.push(d),
            None => r,
        }
    }
}

/// The description and size budget of each deliverable.
pub open spec fn deliverable_terms(v: Seq<Deliverable>) -> Seq<(Seq<char>, usize)> {
    v.map_values(|d: Deliverable| (d.description@, d.max_loc))
}

/// Reads deliverables written as `description:count|description:count|...`:
/// descriptions are trimmed, chunks whose count does not read are skipped,
/// and every deliverable requires tests.
pub fn parse_deliverables(raw: &str) -> (r: Vec<Deliverable>)
    ensures
        deliverable_terms(r@) == deliverables_from(split_text(raw@, '|')),
        forall|i: int| 0 <= i < r@.len() ==> #[trigger] r@[i].tests_required,
{
    let chunks = split(raw, '|');
    let ghost cs = text_views(chunks@);
    let mut r: Vec<Deliverable> = Vec::new();
    let mut i: usize = 0;
    assert(cs.subrange(0, 0) =~= Seq::<Seq<char>>::empty());
    while i < chunks.len()
        invariant
            cs == text_views(chunks@),
            0 <= i <= chunks@.len(),
            deliverable_terms(r@) == deliverables_from(cs.subrange(0, i as int)),
            forall|k: int| 0 <= k < r@.len() ==> #[trigger] r@[k].tests_required,
        decreases chunks@.len() - i,
    {
        let parts = split(chunks[i].as_str(), ':');
        assert(cs.subrange(0, i + 1).drop_last() =~= cs.subrange(0, i as int));
        assert(cs.subrange(0, i + 1).last() == chunks@[i as int]@);
        if parts.len() >= 2 {
            assert(text_views(parts@)[1] == parts@[1]@);
            assert(text_views(parts@)[0] == parts@[0]@);
            match parse_decimal(parts[1].as_str()) {
                Some(n) => {
                    let d = Deliverable {
                        description: trim(parts[0].as_str()),
                        max_loc: n,
                        tests_required: true,
                    };
                    let ghost before = r@;
                    r.push(d);
                    assert(deliverable_terms(r@) =~= deliverable_terms(before).push(
                        (d.description@, n),
                    ));
                },
                None => {},
            }
        }
        i += 1;
    }
    assert(cs.subrange(0, chunks@.len() as int) =~= cs);
    r
}

} // verus!
