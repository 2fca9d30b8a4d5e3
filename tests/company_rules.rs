use orchestrator::company::{parse_deliverables, parse_dod, required_positions, RoleTier};
use orchestrator::text::{parse_decimal, split, trim};

#[test]
fn positions_for_twelve_thousand() {
    let r = required_positions(12_345);
    assert_eq!(
        r,
        vec![
            (RoleTier::Manager, 1_234),
            (RoleTier::SeniorManager, 123),
            (RoleTier::Director, 123),
            (RoleTier::CSuite, 24),
            (RoleTier::BoardSeat, 1),
            (RoleTier::CEO, 1),
            (RoleTier::President, 1),
            (RoleTier::CoPresident, 1),
        ]
    );
}

#[test]
fn positions_for_small_company() {
    let r = required_positions(9);
    assert_eq!(r[0], (RoleTier::Manager, 0));
    assert_eq!(r[5], (RoleTier::CEO, 1));
    assert_eq!(r.len(), 8);
}

#[test]
fn role_names_round_trip() {
    for r in [
        RoleTier::Employee,
        RoleTier::Manager,
        RoleTier::SeniorManager,
        RoleTier::Director,
        RoleTier::CSuite,
        RoleTier::President,
        RoleTier::CoPresident,
        RoleTier::CEO,
        RoleTier::BoardSeat,
    ] {
        assert_eq!(RoleTier::parse(r.as_str()), Ok(r));
    }
}

#[test]
fn role_parse_ignores_case_and_accepts_aliases() {
    assert_eq!(RoleTier::parse("CEO"), Ok(RoleTier::CEO));
    assert_eq!(RoleTier::parse("SeniorManager"), Ok(RoleTier::SeniorManager));
    assert_eq!(RoleTier::parse("C_Suite"), Ok(RoleTier::CSuite));
    assert_eq!(RoleTier::parse("Board"), Ok(RoleTier::BoardSeat));
    assert_eq!("copresident".parse::<RoleTier>(), Ok(RoleTier::CoPresident));
    assert_eq!(RoleTier::parse("Janitor"), Err("Unknown role: Janitor".to_string()));
    assert_eq!(RoleTier::from_lowercase("CEO"), None);
    assert_eq!(RoleTier::from_lowercase("ceo"), Some(RoleTier::CEO));
}

#[test]
fn dod_items_trimmed_and_nonempty() {
    assert_eq!(parse_dod(" tests pass | docs ||  |review "), vec!["tests pass", "docs", "review"]);
    assert!(parse_dod("").is_empty());
    assert!(parse_dod(" | ").is_empty());
}

#[test]
fn deliverables_read_and_skip_bad_chunks() {
    let d = parse_deliverables(" api :120|ui:abc|docs|cli:+30:extra|big:99999999999999999999999");
    assert_eq!(d.len(), 2);
    assert_eq!(d[0].description, "api");
    assert_eq!(d[0].max_loc, 120);
    assert!(d[0].tests_required);
    assert_eq!(d[1].description, "cli");
    assert_eq!(d[1].max_loc, 30);
    assert!(parse_deliverables("x: 5").is_empty());
}

#[test]
fn decimal_reading() {
    assert_eq!(parse_decimal("0"), Some(0));
    assert_eq!(parse_decimal("+7"), Some(7));
    assert_eq!(parse_decimal("18446744073709551615"), Some(usize::MAX));
    assert_eq!(parse_decimal("18446744073709551616"), None);
    assert_eq!(parse_decimal(""), None);
    assert_eq!(parse_decimal("+"), None);
    assert_eq!(parse_decimal("-1"), None);
    assert_eq!(parse_decimal(" 1"), None);
    assert_eq!(parse_decimal("12a"), None);
}

#[test]
fn split_and_trim() {
    assert_eq!(split("a|b||c", '|'), vec!["a", "b", "", "c"]);
    assert_eq!(split("", '|'), vec![""]);
    assert_eq!(split("|", '|'), vec!["", ""]);
    assert_eq!(trim("\t x y \n"), "x y");
    assert_eq!(trim("\u{3000}wide\u{a0}"), "wide");
    assert_eq!(trim("   "), "");
}
