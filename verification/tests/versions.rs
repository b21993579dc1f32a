use pep440_ranges::{LocalSegment, PreRelease, Version, VersionOrder};

fn parse(text: &str) -> Version {
    let (v, wildcard) = pep440_ranges::parse_version_wildcard(text).unwrap();
    assert!(!wildcard);
    v
}

fn assert_chain(texts: &[&str]) {
    for pair in texts.windows(2) {
        let a = parse(pair[0]);
        let b = parse(pair[1]);
        assert_eq!(a.compare(&b), VersionOrder::Less, "{} vs {}", pair[0], pair[1]);
        assert_eq!(b.compare(&a), VersionOrder::Greater, "{} vs {}", pair[1], pair[0]);
    }
}

#[test]
fn maturity_ranks_order_the_same_release() {
    assert_chain(&[
        "1.0.dev0",
        "1.0.dev1",
        "1.0a1.dev0",
        "1.0a1",
        "1.0b1",
        "1.0rc1",
        "1.0",
        "1.0.post0.dev1",
        "1.0.post0",
        "1.0.post1",
        "1.1",
    ]);
}

#[test]
fn epoch_dominates_release() {
    assert_chain(&["9.9", "1!0.5", "2!0.1"]);
}

#[test]
fn release_padding_makes_equal_literals() {
    assert_eq!(parse("1.0").compare(&parse("1")), VersionOrder::Equal);
    assert_eq!(parse("1.0.0").compare(&parse("1")), VersionOrder::Equal);
    assert_eq!(parse("1.0.1").compare(&parse("1")), VersionOrder::Greater);
}

#[test]
fn local_segments_break_ties() {
    assert_chain(&["1.0", "1.0+abc", "1.0+abc.def", "1.0+abc.1", "1.0+5", "1.0+6.0"]);
}

#[test]
fn parser_fills_every_field() {
    let v = parse("2!1.2.3rc4.post5.dev6+abc.7");
    assert_eq!(v.epoch, 2);
    assert_eq!(v.release, vec![1, 2, 3]);
    assert_eq!(v.pre, Some(PreRelease::ReleaseCandidate(4)));
    assert_eq!(v.post, Some(5));
    assert_eq!(v.dev, Some(6));
    assert_eq!(
        v.local,
        vec![LocalSegment::Text(b"abc".to_vec()), LocalSegment::Number(7)]
    );
}

#[test]
fn parser_accepts_alternate_spellings() {
    let v = parse("v1.2.ALPHA3");
    assert_eq!(v.release, vec![1, 2]);
    assert_eq!(v.pre, Some(PreRelease::Alpha(3)));
    let v = parse("1.2-7");
    assert_eq!(v.post, Some(7));
    let v = parse("1.2.REV");
    assert_eq!(v.post, Some(0));
}

#[test]
fn parser_rejects_malformed_literals() {
    assert!(pep440_ranges::parse_version_wildcard("").is_err());
    assert!(pep440_ranges::parse_version_wildcard("1.2.3.!").is_err());
    assert!(pep440_ranges::parse_version_wildcard("hello").is_err());
}

#[test]
fn wildcard_suffix_is_detected_and_stripped() {
    let (v, wildcard) = pep440_ranges::parse_version_wildcard("1.2.*").unwrap();
    assert!(wildcard);
    assert_eq!(v.release, vec![1, 2]);
}

#[test]
fn next_is_strictly_greater() {
    for text in ["1.0", "1.0.dev0", "1.0a1", "0!0.0", "1.0+abc"] {
        let v = parse(text);
        let n = v.next();
        assert_eq!(v.compare(&n), VersionOrder::Less, "{}", text);
    }
    let n = parse("1.0").next();
    assert_eq!(n.local, vec![LocalSegment::Text(Vec::new())]);
}

#[test]
fn equality_pads_the_release() {
    assert!(parse("1.0") == parse("1"));
    assert!(parse("1.0.0.0") == parse("1"));
    assert!(parse("1.0").eqv(&parse("1")));
    assert!(parse("1.0.1") != parse("1"));
    assert!(parse("1.0") != parse("1.0.post0"));
    assert!(parse("1.0") != parse("1.0+abc"));
}

#[test]
fn duplicate_preserves_every_field() {
    let v = parse("2!1.2rc3.post4.dev5+abc.6");
    let d = v.duplicate();
    assert_eq!(d.epoch, v.epoch);
    assert_eq!(d.release, v.release);
    assert_eq!(d.pre, v.pre);
    assert_eq!(d.post, v.post);
    assert_eq!(d.dev, v.dev);
    assert_eq!(d.local, v.local);
}

#[test]
fn sentinels_bound_ordinary_literals() {
    let zero = Version::zero();
    let infinity = Version::infinity();
    for text in ["0", "0.dev0", "1.0", "99!1", "1.0+abc"] {
        let v = parse(text);
        assert!(zero.le(&v), "{}", text);
        assert!(v.lt(&infinity), "{}", text);
    }
    assert_eq!(zero.compare(&parse("0.dev0")), VersionOrder::Equal);
}
