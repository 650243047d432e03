use riven::version::{Comparator, SemVer, VersionReq};

#[test]
fn test_semver_parse() {
    assert_eq!(SemVer::parse("1.2.3").unwrap(), SemVer::new(1, 2, 3));
    assert_eq!(SemVer::parse("0.1.0").unwrap(), SemVer::new(0, 1, 0));
    assert_eq!(SemVer::parse("1.0").unwrap(), SemVer::new(1, 0, 0));
    assert_eq!(SemVer::parse("2").unwrap(), SemVer::new(2, 0, 0));
}

#[test]
fn test_semver_ordering() {
    assert!(SemVer::new(1, 0, 0) < SemVer::new(2, 0, 0));
    assert!(SemVer::new(1, 1, 0) < SemVer::new(1, 2, 0));
    assert!(SemVer::new(1, 2, 3) < SemVer::new(1, 2, 4));
    assert!(SemVer::new(0, 9, 9) < SemVer::new(1, 0, 0));
}

#[test]
fn test_caret_default() {
    let req = VersionReq::parse("1.2.3").unwrap();
    assert!(req.matches(&SemVer::new(1, 2, 3)));
    assert!(req.matches(&SemVer::new(1, 9, 0)));
    assert!(!req.matches(&SemVer::new(2, 0, 0)));
    assert!(!req.matches(&SemVer::new(1, 2, 2)));
}

#[test]
fn test_caret_explicit() {
    let req = VersionReq::parse("^1.2").unwrap();
    assert!(req.matches(&SemVer::new(1, 2, 0)));
    assert!(req.matches(&SemVer::new(1, 9, 9)));
    assert!(!req.matches(&SemVer::new(2, 0, 0)));
}

#[test]
fn test_caret_pre_1_0() {
    let req = VersionReq::parse("^0.1.0").unwrap();
    assert!(req.matches(&SemVer::new(0, 1, 0)));
    assert!(req.matches(&SemVer::new(0, 1, 9)));
    assert!(!req.matches(&SemVer::new(0, 2, 0)));

    let req = VersionReq::parse("^0.0.3").unwrap();
    assert!(req.matches(&SemVer::new(0, 0, 3)));
    assert!(!req.matches(&SemVer::new(0, 0, 4)));
}

#[test]
fn test_tilde() {
    let req = VersionReq::parse("~1.2.3").unwrap();
    assert!(req.matches(&SemVer::new(1, 2, 3)));
    assert!(req.matches(&SemVer::new(1, 2, 9)));
    assert!(!req.matches(&SemVer::new(1, 3, 0)));
}

#[test]
fn test_exact() {
    let req = VersionReq::parse("=1.2.3").unwrap();
    assert!(req.matches(&SemVer::new(1, 2, 3)));
    assert!(!req.matches(&SemVer::new(1, 2, 4)));
}

#[test]
fn test_range() {
    let req = VersionReq::parse(">=1.0, <2.0").unwrap();
    assert!(req.matches(&SemVer::new(1, 0, 0)));
    assert!(req.matches(&SemVer::new(1, 9, 9)));
    assert!(!req.matches(&SemVer::new(0, 9, 9)));
    assert!(!req.matches(&SemVer::new(2, 0, 0)));
}

#[test]
fn test_wildcard() {
    let req = VersionReq::parse("*").unwrap();
    assert!(req.matches(&SemVer::new(0, 0, 0)));
    assert!(req.matches(&SemVer::new(99, 99, 99)));
}

#[test]
fn test_display() {
    assert_eq!(SemVer::new(1, 2, 3).to_string(), "1.2.3");
    assert_eq!(VersionReq::parse("^1.2.3").unwrap().to_string(), "^1.2.3");
    assert_eq!(VersionReq::parse("*").unwrap().to_string(), "*");
}

#[test]
fn test_version_req_caret() {
    let req = VersionReq::parse("1.2.3").unwrap();
    assert!(req.matches(&SemVer::new(1, 2, 3)));
    assert!(req.matches(&SemVer::new(1, 9, 0)));
    assert!(!req.matches(&SemVer::new(2, 0, 0)));
    assert!(!req.matches(&SemVer::new(0, 9, 0)));
}

#[test]
fn test_version_req_tilde() {
    let req = VersionReq::parse("~1.2.3").unwrap();
    assert!(req.matches(&SemVer::new(1, 2, 3)));
    assert!(req.matches(&SemVer::new(1, 2, 9)));
    assert!(!req.matches(&SemVer::new(1, 3, 0)));
}

#[test]
fn test_version_req_exact() {
    let req = VersionReq::parse("=2.0.0").unwrap();
    assert!(req.matches(&SemVer::new(2, 0, 0)));
    assert!(!req.matches(&SemVer::new(2, 0, 1)));
}

#[test]
fn test_version_req_range() {
    let req = VersionReq::parse(">=1.0.0, <2.0.0").unwrap();
    assert!(req.matches(&SemVer::new(1, 5, 0)));
    assert!(!req.matches(&SemVer::new(2, 0, 0)));
    assert!(!req.matches(&SemVer::new(0, 9, 0)));
}

#[test]
fn test_version_req_wildcard() {
    let req = VersionReq::parse("*").unwrap();
    assert!(req.matches(&SemVer::new(0, 0, 0)));
    assert!(req.matches(&SemVer::new(99, 0, 0)));
}

// Own tests: errors, edge cases of the number syntax, display round trips, laws on values.

#[test]
fn semver_parse_errors_carry_the_input() {
    assert_eq!(SemVer::parse("1.2.3.4").unwrap_err(), "invalid version: '1.2.3.4'");
    assert_eq!(SemVer::parse("").unwrap_err(), "invalid version: ''");
    assert_eq!(SemVer::parse("1.x").unwrap_err(), "invalid version: '1.x'");
    assert_eq!(SemVer::parse("-1").unwrap_err(), "invalid version: '-1'");
    assert_eq!(SemVer::parse("18446744073709551616").unwrap_err(), "invalid version: '18446744073709551616'");
}

#[test]
fn semver_parse_number_edges() {
    assert_eq!(SemVer::parse("+1.+2").unwrap(), SemVer::new(1, 2, 0));
    assert_eq!(SemVer::parse("18446744073709551615").unwrap(), SemVer::new(u64::MAX, 0, 0));
    assert_eq!(SemVer::parse("007.01.0").unwrap(), SemVer::new(7, 1, 0));
    assert!(SemVer::parse("+").is_err());
    assert!(SemVer::parse("1..2").is_err());
}

#[test]
fn version_req_errors() {
    assert_eq!(VersionReq::parse("^").unwrap_err(), "invalid version: ''");
    assert_eq!(VersionReq::parse(">=1.0, <abc").unwrap_err(), "invalid version: 'abc'");
    assert_eq!(VersionReq::parse("").unwrap_err(), "invalid version: ''");
    assert_eq!(VersionReq::parse("1.0,").unwrap_err(), "invalid version: ''");
}

#[test]
fn version_req_whitespace_and_kinds() {
    let req = VersionReq::parse("  >= 1.0 ,  < 2.0 ").unwrap();
    assert_eq!(req.comparators, vec![Comparator::Gte(SemVer::new(1, 0, 0)), Comparator::Lt(SemVer::new(2, 0, 0))]);
    let req = VersionReq::parse("<=1.5, >1.0").unwrap();
    assert_eq!(req.to_string(), "<=1.5.0, >1.0.0");
    assert!(req.matches(&SemVer::new(1, 5, 0)));
    assert!(!req.matches(&SemVer::new(1, 0, 0)));
    assert_eq!(VersionReq::parse("*, 1").unwrap().comparators, vec![Comparator::Wildcard, Comparator::Caret(SemVer::new(1, 0, 0))]);
}

#[test]
fn display_then_parse_round_trips() {
    for v in [SemVer::new(0, 0, 0), SemVer::new(12, 0, 345), SemVer::new(u64::MAX, 1, 2)] {
        assert_eq!(SemVer::parse(&v.to_string()).unwrap(), v);
    }
    let req = VersionReq::parse("~0.3, =1.2.3, >=4, <5.6, *").unwrap();
    let again = VersionReq::parse(&req.to_string()).unwrap();
    assert_eq!(again, req);
}

#[test]
fn caret_and_tilde_ranges_on_values() {
    let c = Comparator::Caret(SemVer::new(0, 2, 3));
    assert!(c.matches(&SemVer::new(0, 2, 9)));
    assert!(!c.matches(&SemVer::new(0, 3, 0)));
    assert!(!c.matches(&SemVer::new(0, 2, 2)));
    let t = Comparator::Tilde(SemVer::new(3, 4, 5));
    assert!(t.matches(&SemVer::new(3, 4, 99)));
    assert!(!t.matches(&SemVer::new(3, 5, 0)));
    assert!(Comparator::Gte(SemVer::new(1, 1, 1)).matches(&SemVer::new(1, 1, 1)));
    assert!(!Comparator::Gt(SemVer::new(1, 1, 1)).matches(&SemVer::new(1, 1, 1)));
    assert!(Comparator::Lte(SemVer::new(1, 1, 1)).matches(&SemVer::new(1, 1, 1)));
    assert!(!Comparator::Lt(SemVer::new(1, 1, 1)).matches(&SemVer::new(1, 1, 1)));
}

#[test]
fn version_order_is_total_on_values() {
    let a = SemVer::new(1, 2, 3);
    let b = SemVer::new(1, 3, 0);
    assert!(a < b && !(b < a) && a != b);
    assert!(a <= a && a >= a);
    assert_eq!(a.partial_cmp(&b), Some(std::cmp::Ordering::Less));
    assert_eq!(b.partial_cmp(&a), Some(std::cmp::Ordering::Greater));
}
