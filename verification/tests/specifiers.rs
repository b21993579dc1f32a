use pep440_ranges::{CompareOp, Specifier, SpecifierError, Specifiers, Version};

fn ver(text: &str) -> Version {
    let (v, wildcard) = pep440_ranges::parse_version_wildcard(text).unwrap();
    assert!(!wildcard);
    v
}

fn specs(pairs: &[(CompareOp, &str)]) -> Specifiers {
    Specifiers(
        pairs
            .iter()
            .map(|(op, value)| Specifier { op: *op, value: value.to_string() })
            .collect(),
    )
}

#[test]
fn wildcard_equal_matches_inside_prefix() {
    let s = specs(&[(CompareOp::Equal, "1.2.*")]);
    assert_eq!(s.satisfied_by(&ver("1.2.5")).unwrap(), true);
}

#[test]
fn wildcard_equal_rejects_outside_prefix() {
    let s = specs(&[(CompareOp::Equal, "1.2.*")]);
    assert_eq!(s.satisfied_by(&ver("1.3.0")).unwrap(), false);
}

#[test]
fn conjunction_of_bounds() {
    let s = specs(&[(CompareOp::GreaterThanEqual, "1.0"), (CompareOp::StrictlyLessThan, "2.0")]);
    assert_eq!(s.satisfied_by(&ver("1.5")).unwrap(), true);
    assert_eq!(s.satisfied_by(&ver("2.0")).unwrap(), false);
}

#[test]
fn compatible_release_window() {
    let s = specs(&[(CompareOp::Compatible, "2.2")]);
    assert_eq!(s.satisfied_by(&ver("2.3")).unwrap(), true);
    assert_eq!(s.satisfied_by(&ver("3.0")).unwrap(), false);
}

#[test]
fn wildcard_not_equal() {
    let s = specs(&[(CompareOp::NotEqual, "1.2.*")]);
    assert_eq!(s.satisfied_by(&ver("1.2.9")).unwrap(), false);
    assert_eq!(s.satisfied_by(&ver("1.3.0")).unwrap(), true);
}

#[test]
fn compatible_needs_two_release_segments() {
    let got = CompareOp::Compatible.to_ranges("2");
    assert_eq!(got.unwrap_err(), SpecifierError::CompatibleReleaseTooShort);
}

#[test]
fn wildcard_rejected_for_ordered_operator() {
    let got = CompareOp::StrictlyGreaterThan.to_ranges("1.2.*");
    assert_eq!(got.unwrap_err(), SpecifierError::WildcardOperator(CompareOp::StrictlyGreaterThan));
}

#[test]
fn malformed_literal_is_a_parse_error() {
    let got = CompareOp::Equal.to_ranges("not-a-version");
    assert_eq!(got.unwrap_err(), SpecifierError::ParseError);
    let s = specs(&[(CompareOp::Equal, "???")]);
    assert_eq!(s.satisfied_by(&ver("1.0")).unwrap_err(), SpecifierError::ParseError);
}

#[test]
fn wildcard_with_dev_or_local_suffix_rejected() {
    let got = CompareOp::Equal.to_ranges("1.2.dev1.*");
    assert_eq!(got.unwrap_err(), SpecifierError::WildcardSuffix);
    let got = CompareOp::NotEqual.to_ranges("1.2+abc.*");
    assert_eq!(got.unwrap_err(), SpecifierError::WildcardSuffix);
}

#[test]
fn ordered_comparison_against_local_rejected() {
    let got = CompareOp::GreaterThanEqual.to_ranges("1.2+local");
    assert_eq!(got.unwrap_err(), SpecifierError::LocalComparison(CompareOp::GreaterThanEqual));
    assert!(CompareOp::Equal.to_ranges("1.2+local").is_ok());
}

#[test]
fn bound_past_the_largest_number_rejected() {
    let got = CompareOp::StrictlyGreaterThan.to_ranges("1.2.post4294967295");
    assert_eq!(got.unwrap_err(), SpecifierError::NumberOverflow);
    let got = CompareOp::Equal.to_ranges("1.4294967295.*");
    assert_eq!(got.unwrap_err(), SpecifierError::NumberOverflow);
    let got = CompareOp::Compatible.to_ranges("1.4294967295.5");
    assert_eq!(got.unwrap_err(), SpecifierError::NumberOverflow);
}

#[test]
fn empty_collection_is_satisfied() {
    let s = Specifiers(Vec::new());
    assert_eq!(s.satisfied_by(&ver("1.0")).unwrap(), true);
}

#[test]
fn first_unsatisfied_member_short_circuits() {
    let s = specs(&[(CompareOp::GreaterThanEqual, "2.0"), (CompareOp::Equal, "???")]);
    assert_eq!(s.satisfied_by(&ver("1.0")).unwrap(), false);
    assert_eq!(s.satisfied_by(&ver("2.5")).unwrap_err(), SpecifierError::ParseError);
}

#[test]
fn equal_covers_the_literal_itself_only_up_to_next() {
    let s = specs(&[(CompareOp::Equal, "1.2")]);
    assert_eq!(s.satisfied_by(&ver("1.2")).unwrap(), true);
    assert_eq!(s.satisfied_by(&ver("1.2.0")).unwrap(), true);
    assert_eq!(s.satisfied_by(&ver("1.2.1")).unwrap(), false);
}

#[test]
fn strict_bounds_exclude_releases_of_the_literal() {
    let gt = specs(&[(CompareOp::StrictlyGreaterThan, "1.2")]);
    assert_eq!(gt.satisfied_by(&ver("1.2.post1")).unwrap(), false);
    assert_eq!(gt.satisfied_by(&ver("1.3")).unwrap(), true);
    let lt = specs(&[(CompareOp::StrictlyLessThan, "1.2")]);
    assert_eq!(lt.satisfied_by(&ver("1.2rc1")).unwrap(), false);
    assert_eq!(lt.satisfied_by(&ver("1.1.9")).unwrap(), true);
    let lt_pre = specs(&[(CompareOp::StrictlyLessThan, "1.2a2")]);
    assert_eq!(lt_pre.satisfied_by(&ver("1.2a1")).unwrap(), true);
}

#[test]
fn less_than_equal_includes_post_and_local() {
    let s = specs(&[(CompareOp::LessThanEqual, "1.2")]);
    assert_eq!(s.satisfied_by(&ver("1.2")).unwrap(), true);
    assert_eq!(s.satisfied_by(&ver("1.2.post1")).unwrap(), false);
    assert_eq!(s.satisfied_by(&ver("1.1")).unwrap(), true);
}

#[test]
fn wildcard_covers_every_maturity_suffix() {
    let s = specs(&[(CompareOp::Equal, "1.2.*")]);
    assert_eq!(s.satisfied_by(&ver("1.2a1")).unwrap(), true);
    assert_eq!(s.satisfied_by(&ver("1.2.dev0")).unwrap(), true);
    assert_eq!(s.satisfied_by(&ver("1.2.post3")).unwrap(), true);
    assert_eq!(s.satisfied_by(&ver("1.2.9+local.7")).unwrap(), true);
    assert_eq!(s.satisfied_by(&ver("1.1.9")).unwrap(), false);
}

#[test]
fn range_endpoints_for_each_operator() {
    let rs = CompareOp::Compatible.to_ranges("2.2.1").unwrap();
    assert_eq!(rs.len(), 1);
    assert!(rs[0].start == ver("2.2.1"));
    assert!(rs[0].end == ver("2.3.dev0"));

    let rs = CompareOp::Equal.to_ranges("1.2.*").unwrap();
    assert_eq!(rs.len(), 1);
    assert!(rs[0].start == ver("1.2.dev0"));
    assert!(rs[0].end == ver("1.3.dev0"));

    let rs = CompareOp::LessThanEqual.to_ranges("1.2").unwrap();
    assert_eq!(rs.len(), 1);
    assert!(rs[0].start == Version::zero());
    assert!(rs[0].end == ver("1.2").next());

    let rs = CompareOp::NotEqual.to_ranges("1.2").unwrap();
    assert_eq!(rs.len(), 2);
    assert!(rs[0].start == Version::zero());
    assert!(rs[0].end == ver("1.2"));
    assert!(rs[1].start == ver("1.2").next());
    assert!(rs[1].end == Version::infinity());

    let rs = CompareOp::StrictlyGreaterThan.to_ranges("1.2").unwrap();
    assert_eq!(rs.len(), 1);
    let after_posts = Version {
        epoch: 0,
        release: vec![1, 2],
        pre: None,
        post: Some(u32::MAX),
        dev: None,
        local: Vec::new(),
    };
    assert!(rs[0].start == after_posts);

    let rs = CompareOp::StrictlyLessThan.to_ranges("1.2").unwrap();
    assert_eq!(rs.len(), 1);
    assert!(rs[0].end == ver("1.2.dev0"));
}

#[test]
fn wildcard_after_post_or_pre_segment() {
    let s = specs(&[(CompareOp::Equal, "1.2.post1.*")]);
    assert_eq!(s.satisfied_by(&ver("1.2.post1")).unwrap(), true);
    assert_eq!(s.satisfied_by(&ver("1.2.post2")).unwrap(), false);
    let s = specs(&[(CompareOp::Equal, "1.2a1.*")]);
    assert_eq!(s.satisfied_by(&ver("1.2a1")).unwrap(), true);
    assert_eq!(s.satisfied_by(&ver("1.2a2")).unwrap(), false);
}
