//! Specifiers and the range compiler: a comparison operator plus a
//! right-hand-side text compile into a union of half-open intervals over the
//! version order, and a specifier set is the conjunction of its members.

use core::ops::Range;
use vstd::prelude::*;

use crate::order::{
    lemma_floor_min, lemma_next_greater, lemma_release_antisym, lemma_release_between,
    lemma_version_antisym, lemma_version_cmp_range, lemma_zero_min,
};
use crate::parse::{has_wildcard, parse_version_wildcard, parsed_version, wildcard_stem};
use crate::version::{
    bump_last, infinity_view, next_of, rel_at, release_cmp, spec_le, spec_lt, view_wf, zero_view,
    PreRelease, PreView, Version, VersionView,
};

verus! {

/// The seven comparison operators a specifier can carry.
#[derive(Clone, Copy, Debug, PartialEq, Eq, Structural)]
pub enum CompareOp {
    LessThanEqual,
    StrictlyLessThan,
    NotEqual,
    Equal,
    GreaterThanEqual,
    StrictlyGreaterThan,
    Compatible,
}

/// Why a specifier failed to compile into ranges. `ParseError` is the
/// grammar's rejection of the right-hand side; the others are semantic rules
/// on syntactically valid input, each carrying the offending operator where
/// one is involved.
#[derive(Clone, Copy, Debug, PartialEq, Eq, Structural)]
pub enum SpecifierError {
    ParseError,
    WildcardOperator(CompareOp),
    WildcardSuffix,
    LocalComparison(CompareOp),
    CompatibleReleaseTooShort,
    NumberOverflow,
}

/// One constraint: an operator and the unparsed right-hand-side text. The
/// text, not a parsed literal, is retained because wildcard forms are not
/// valid version literals.
#[derive(Clone, Debug, PartialEq, Eq)]
pub struct Specifier {
    pub op: CompareOp,
    pub value: String,
}

/// Mathematical image of a specifier.
pub struct SpecifierView {
    pub op: CompareOp,
    pub value: Seq<char>,
}

impl View for Specifier {
    type V = SpecifierView;

    open spec fn view(&self) -> SpecifierView {
        SpecifierView { op: self.op, value: self.value@ }
    }
}

/// An ordered collection of specifiers, combined with AND semantics.
#[derive(Clone, Debug, PartialEq, Eq)]
pub struct Specifiers(pub Vec<Specifier>);

impl View for Specifiers {
    type V = Seq<SpecifierView>;

    open spec fn view(&self) -> Seq<SpecifierView> {
        self.0@.map_values(|s: Specifier| s@)
    }
}

/// The interval pair a compiled range denotes.
pub open spec fn range_view(r: Range<Version>) -> (VersionView, VersionView) {
    (r.start@, r.end@)
}

/// The interval pairs a compiled range list denotes.
pub open spec fn ranges_views(rs: Seq<Range<Version>>) -> Seq<(VersionView, VersionView)> {
    rs.map_values(|r: Range<Version>| range_view(r))
}

/// Membership in one half-open interval.
pub open spec fn in_interval(lo: VersionView, hi: VersionView, w: VersionView) -> bool {
    spec_le(lo, w) && spec_lt(w, hi)
}

/// Membership in at least one of a list of intervals.
pub open spec fn in_any(rs: Seq<(VersionView, VersionView)>, w: VersionView) -> bool {
    exists|i: int| 0 <= i < rs.len() && in_interval(rs[i].0, rs[i].1, w)
}

/// The literal with its dev marker forced to zero.
pub open spec fn with_dev_zero(v: VersionView) -> VersionView {
    VersionView { dev: Some(0int), ..v }
}

/// The pre-release marker with its number incremented, keeping its tag.
pub open spec fn bumped_pre(p: PreView) -> PreView {
    match p {
        PreView::Alpha(n) => PreView::Alpha(n + 1),
        PreView::Beta(n) => PreView::Beta(n + 1),
        PreView::ReleaseCandidate(n) => PreView::ReleaseCandidate(n + 1),
    }
}

/// The lower bound of a wildcard range: the stem with dev forced to zero.
pub open spec fn wildcard_low(v: VersionView) -> VersionView {
    with_dev_zero(v)
}

/// The upper bound of a wildcard range: the stem with its last meaningful
/// maturity segment incremented — post if present, else the pre-release
/// number, else the last release element — and dev forced to zero.
pub open spec fn wildcard_high(v: VersionView) -> VersionView {
    match v.post {
        Some(p) => VersionView { post: Some(p + 1), dev: Some(0int), ..v },
        None => match v.pre {
            Some(p) => VersionView { pre: Some(bumped_pre(p)), dev: Some(0int), ..v },
            None => VersionView { release: bump_last(v.release), dev: Some(0int), ..v },
        },
    }
}

/// Whether incrementing the wildcard stem's last meaningful segment would
/// leave the representable number range.
pub open spec fn wildcard_overflow(v: VersionView) -> bool {
    match v.post {
        Some(p) => p == u32::MAX as int,
        None => match v.pre {
            Some(PreView::Alpha(n)) => n == u32::MAX as int,
            Some(PreView::Beta(n)) => n == u32::MAX as int,
            Some(PreView::ReleaseCandidate(n)) => n == u32::MAX as int,
            None => v.release[v.release.len() - 1] == u32::MAX as int,
        },
    }
}

/// The lower bound accepted by a strict greater-than: just above the
/// literal's own dev- or post-releases where it has them, else above every
/// post-release of the literal.
pub open spec fn exclusive_low(v: VersionView) -> VersionView {
    match v.dev {
        Some(d) => VersionView { dev: Some(d + 1), ..v },
        None => match v.post {
            Some(p) => VersionView { post: Some(p + 1), ..v },
            None => VersionView { post: Some(u32::MAX as int), ..v },
        },
    }
}

/// Whether the strict greater-than bound cannot be represented.
pub open spec fn exclusive_low_overflow(v: VersionView) -> bool {
    match v.dev {
        Some(d) => d == u32::MAX as int,
        None => match v.post {
            Some(p) => p == u32::MAX as int,
            None => false,
        },
    }
}

/// The upper bound accepted by a strict less-than: for a final release the
/// bound excludes its own pre-, dev- and post-forms; a pre- or dev-release
/// is its own bound.
pub open spec fn exclusive_high(v: VersionView) -> VersionView {
    if v.pre is None && v.dev is None {
        VersionView { post: None, dev: Some(0int), local: Seq::empty(), ..v }
    } else {
        v
    }
}

/// The upper bound of a compatible-release range: the release with its last
/// element dropped and the new last element incremented, all maturity and
/// local markers cleared, dev forced to zero.
pub open spec fn compatible_high(v: VersionView) -> VersionView {
    VersionView {
        epoch: v.epoch,
        release: bump_last(v.release.drop_last()),
        pre: None,
        post: None,
        dev: Some(0int),
        local: Seq::empty(),
    }
}

/// The ranges a wildcard specifier compiles to, or its exact failure.
pub open spec fn compile_wildcard(op: CompareOp, v: VersionView) -> Result<
    Seq<(VersionView, VersionView)>,
    SpecifierError,
> {
    if v.dev is Some || v.local.len() > 0 {
        Err(SpecifierError::WildcardSuffix)
    } else if op != CompareOp::Equal && op != CompareOp::NotEqual {
        Err(SpecifierError::WildcardOperator(op))
    } else if wildcard_overflow(v) {
        Err(SpecifierError::NumberOverflow)
    } else if op == CompareOp::Equal {
        Ok(seq![(wildcard_low(v), wildcard_high(v))])
    } else {
        Ok(seq![(zero_view(), wildcard_low(v)), (wildcard_high(v), infinity_view())])
    }
}

/// The ranges a non-wildcard specifier compiles to, or its exact failure.
pub open spec fn compile_plain(op: CompareOp, v: VersionView) -> Result<
    Seq<(VersionView, VersionView)>,
    SpecifierError,
> {
    if op != CompareOp::Equal && op != CompareOp::NotEqual && v.local.len() > 0 {
        Err(SpecifierError::LocalComparison(op))
    } else {
        match op {
            CompareOp::LessThanEqual => Ok(seq![(zero_view(), next_of(v))]),
            CompareOp::GreaterThanEqual => Ok(seq![(v, infinity_view())]),
            CompareOp::Equal => Ok(seq![(v, next_of(v))]),
            CompareOp::NotEqual => Ok(
                seq![(zero_view(), v), (next_of(v), infinity_view())],
            ),
            CompareOp::StrictlyGreaterThan => {
                if exclusive_low_overflow(v) {
                    Err(SpecifierError::NumberOverflow)
                } else {
                    Ok(seq![(exclusive_low(v), infinity_view())])
                }
            },
            CompareOp::StrictlyLessThan => Ok(seq![(zero_view(), exclusive_high(v))]),
            CompareOp::Compatible => {
                if v.release.len() < 2 {
                    Err(SpecifierError::CompatibleReleaseTooShort)
                } else if v.release[v.release.len() - 2] == u32::MAX as int {
                    Err(SpecifierError::NumberOverflow)
                } else {
                    Ok(seq![(v, compatible_high(v))])
                }
            },
        }
    }
}

/// What an operator and a right-hand-side text compile to: the accepted
/// intervals, or the first failure in the order the rules are checked.
pub open spec fn compile_spec(op: CompareOp, s: Seq<char>) -> Result<
    Seq<(VersionView, VersionView)>,
    SpecifierError,
> {
    match parsed_version(wildcard_stem(s)) {
        None => Err(SpecifierError::ParseError),
        Some(v) => if has_wildcard(s) {
            compile_wildcard(op, v)
        } else {
            compile_plain(op, v)
        },
    }
}

/// Whether one specifier accepts a literal, or why it cannot say.
pub open spec fn satisfied_spec(sp: SpecifierView, w: VersionView) -> Result<
    bool,
    SpecifierError,
> {
    match compile_spec(sp.op, sp.value) {
        Err(e) => Err(e),
        Ok(rs) => Ok(in_any(rs, w)),
    }
}

/// Conjunctive evaluation of a specifier list from an index on: the first
/// failure or the first unsatisfied member ends the walk.
pub open spec fn specs_eval_from(ss: Seq<SpecifierView>, w: VersionView, i: int) -> Result<
    bool,
    SpecifierError,
>
    decreases ss.len() - i,
{
    if i >= ss.len() {
        Ok(true)
    } else {
        match satisfied_spec(ss[i], w) {
            Err(e) => Err(e),
            Ok(b) => if !b {
                Ok(false)
            } else {
                specs_eval_from(ss, w, i + 1)
            },
        }
    }
}

/// Conjunctive evaluation of a whole specifier list.
pub open spec fn specs_eval(ss: Seq<SpecifierView>, w: VersionView) -> Result<
    bool,
    SpecifierError,
> {
    specs_eval_from(ss, w, 0)
}

fn bump_last_vec(a: &Vec<u32>) -> (r: Result<Vec<u32>, SpecifierError>)
    requires
        a@.len() >= 1,
    ensures
        match r {
            Ok(b) => {
                &&& a@[a@.len() - 1] < u32::MAX
                &&& b@.map_values(|x: u32| x as int) == bump_last(a@.map_values(|x: u32| x as int))
            },
            Err(e) => a@[a@.len() - 1] == u32::MAX && e == SpecifierError::NumberOverflow,
        },
{
    let mut b = crate::version::copy_u32_vec(a);
    let last = b.len() - 1;
    let x = b[last];
    if x == u32::MAX {
        return Err(SpecifierError::NumberOverflow);
    }
    b[last] = x + 1;
    proof {
        assert(b@.map_values(|x: u32| x as int) =~= bump_last(a@.map_values(|x: u32| x as int)));
    }
    Ok(b)
}

impl CompareOp {
    /// Compiles this operator applied to a right-hand-side text into the
    /// union of half-open ranges it accepts, or reports the exact rule the
    /// pair breaks: a literal the grammar rejects, a wildcard on an operator
    /// that takes none or with a dev or local suffix, an ordered comparison
    /// against a local version, a compatible release with fewer than two
    /// release segments, or a bound beyond the representable numbers.
    pub fn to_ranges(&self, rhs: &str) -> (r: Result<Vec<Range<Version>>, SpecifierError>)
        ensures
            match r {
                Ok(rs) => compile_spec(*self, rhs@) == Ok::<_, SpecifierError>(
                    ranges_views(rs@),
                ),
                Err(e) => compile_spec(*self, rhs@) == Err::<
                    Seq<(VersionView, VersionView)>,
                    _,
                >(e),
            },
    {
        let op = *self;
        let (version, wildcard) = match parse_version_wildcard(rhs) {
            Ok(p) => p,
            Err(e) => {
                return Err(e);
            },
        };
        let ghost vv = version@;
        if wildcard {
            if version.dev.is_some() || version.local.len() > 0 {
                return Err(SpecifierError::WildcardSuffix);
            }
            if !(op == CompareOp::Equal || op == CompareOp::NotEqual) {
                return Err(SpecifierError::WildcardOperator(op));
            }
            let mut h_release = crate::version::copy_u32_vec(&version.release);
            let mut h_pre = version.pre;
            let mut h_post = version.post;
            match version.post {
                Some(p) => {
                    if p == u32::MAX {
                        return Err(SpecifierError::NumberOverflow);
                    }
                    h_post = Some(p + 1);
                },
                None => match version.pre {
                    Some(PreRelease::Alpha(n)) => {
                        if n == u32::MAX {
                            return Err(SpecifierError::NumberOverflow);
                        }
                        h_pre = Some(PreRelease::Alpha(n + 1));
                    },
                    Some(PreRelease::Beta(n)) => {
                        if n == u32::MAX {
                            return Err(SpecifierError::NumberOverflow);
                        }
                        h_pre = Some(PreRelease::Beta(n + 1));
                    },
                    Some(PreRelease::ReleaseCandidate(n)) => {
                        if n == u32::MAX {
                            return Err(SpecifierError::NumberOverflow);
                        }
                        h_pre = Some(PreRelease::ReleaseCandidate(n + 1));
                    },
                    None => {
                        h_release = match bump_last_vec(&version.release) {
                            Ok(b) => b,
                            Err(e) => {
                                return Err(e);
                            },
                        };
                    },
                },
            }
            let low = Version {
                epoch: version.epoch,
                release: crate::version::copy_u32_vec(&version.release),
                pre: version.pre,
                post: version.post,
                dev: Some(0),
                local: Vec::new(),
            };
            let high = Version {
                epoch: version.epoch,
                release: h_release,
                pre: h_pre,
                post: h_post,
                dev: Some(0),
                local: Vec::new(),
            };
            proof {
                assert(low@ =~= wildcard_low(vv));
                assert(high@ =~= wildcard_high(vv));
            }
            if op == CompareOp::Equal {
                let mut rs: Vec<Range<Version>> = Vec::new();
                rs.push(Range { start: low, end: high });
                proof {
                    assert(ranges_views(rs@) =~= seq![(wildcard_low(vv), wildcard_high(vv))]);
                }
                Ok(rs)
            } else {
                let mut rs: Vec<Range<Version>> = Vec::new();
                rs.push(Range { start: Version::zero(), end: low });
                rs.push(Range { start: high, end: Version::infinity() });
                proof {
                    assert(ranges_views(rs@) =~= seq![
                        (zero_view(), wildcard_low(vv)),
                        (wildcard_high(vv), infinity_view()),
                    ]);
                }
                Ok(rs)
            }
        } else {
            if !(op == CompareOp::Equal || op == CompareOp::NotEqual) && version.local.len() > 0 {
                return Err(SpecifierError::LocalComparison(op));
            }
            match op {
                CompareOp::LessThanEqual => {
                    let mut rs: Vec<Range<Version>> = Vec::new();
                    rs.push(Range { start: Version::zero(), end: version.next() });
                    proof {
                        assert(ranges_views(rs@) =~= seq![(zero_view(), next_of(vv))]);
                    }
                    Ok(rs)
                },
                CompareOp::GreaterThanEqual => {
                    let mut rs: Vec<Range<Version>> = Vec::new();
                    rs.push(Range { start: version, end: Version::infinity() });
                    proof {
                        assert(ranges_views(rs@) =~= seq![(vv, infinity_view())]);
                    }
                    Ok(rs)
                },
                CompareOp::Equal => {
                    let high = version.next();
                    let mut rs: Vec<Range<Version>> = Vec::new();
                    rs.push(Range { start: version, end: high });
                    proof {
                        assert(ranges_views(rs@) =~= seq![(vv, next_of(vv))]);
                    }
                    Ok(rs)
                },
                CompareOp::NotEqual => {
                    let high = version.next();
                    let mut rs: Vec<Range<Version>> = Vec::new();
                    rs.push(Range { start: Version::zero(), end: version });
                    rs.push(Range { start: high, end: Version::infinity() });
                    proof {
                        assert(ranges_views(rs@) =~= seq![
                            (zero_view(), vv),
                            (next_of(vv), infinity_view()),
                        ]);
                    }
                    Ok(rs)
                },
                CompareOp::StrictlyGreaterThan => {
                    let mut l_post = version.post;
                    let mut l_dev = version.dev;
                    match version.dev {
                        Some(d) => {
                            if d == u32::MAX {
                                return Err(SpecifierError::NumberOverflow);
                            }
                            l_dev = Some(d + 1);
                        },
                        None => match version.post {
                            Some(p) => {
                                if p == u32::MAX {
                                    return Err(SpecifierError::NumberOverflow);
                                }
                                l_post = Some(p + 1);
                            },
                            None => {
                                l_post = Some(u32::MAX);
                            },
                        },
                    }
                    let low = Version {
                        epoch: version.epoch,
                        release: crate::version::copy_u32_vec(&version.release),
                        pre: version.pre,
                        post: l_post,
                        dev: l_dev,
                        local: crate::version::copy_local_vec(&version.local),
                    };
                    let mut rs: Vec<Range<Version>> = Vec::new();
                    rs.push(Range { start: low, end: Version::infinity() });
                    proof {
                        assert(rs@[0].start@ =~= exclusive_low(vv));
                        assert(ranges_views(rs@) =~= seq![(exclusive_low(vv), infinity_view())]);
                    }
                    Ok(rs)
                },
                CompareOp::StrictlyLessThan => {
                    let bound = if version.pre.is_none() && version.dev.is_none() {
                        Version {
                            epoch: version.epoch,
                            release: crate::version::copy_u32_vec(&version.release),
                            pre: None,
                            post: None,
                            dev: Some(0),
                            local: Vec::new(),
                        }
                    } else {
                        version
                    };
                    proof {
                        assert(bound@ =~= exclusive_high(vv));
                    }
                    let mut rs: Vec<Range<Version>> = Vec::new();
                    rs.push(Range { start: Version::zero(), end: bound });
                    proof {
                        assert(ranges_views(rs@) =~= seq![(zero_view(), exclusive_high(vv))]);
                    }
                    Ok(rs)
                },
                CompareOp::Compatible => {
                    if version.release.len() < 2 {
                        return Err(SpecifierError::CompatibleReleaseTooShort);
                    }
                    let mut h_release = crate::version::copy_u32_vec(&version.release);
                    let _ = h_release.pop();
                    proof {
                        assert(h_release@.map_values(|x: u32| x as int) =~= vv.release.drop_last());
                    }
                    let h_release = match bump_last_vec(&h_release) {
                        Ok(b) => b,
                        Err(e) => {
                            return Err(e);
                        },
                    };
                    let high = Version {
                        epoch: version.epoch,
                        release: h_release,
                        pre: None,
                        post: None,
                        dev: Some(0),
                        local: Vec::new(),
                    };
                    proof {
                        assert(high@ =~= compatible_high(vv));
                    }
                    let mut rs: Vec<Range<Version>> = Vec::new();
                    rs.push(Range { start: version, end: high });
                    proof {
                        assert(ranges_views(rs@) =~= seq![(vv, compatible_high(vv))]);
                    }
                    Ok(rs)
                },
            }
        }
    }
}

impl Specifier {
    /// Whether this constraint accepts the literal: the right-hand side is
    /// compiled to ranges, any compilation failure propagates, and the
    /// literal is accepted exactly when it lies in at least one range.
    pub fn satisfied_by(&self, version: &Version) -> (r: Result<bool, SpecifierError>)
        ensures
            r == satisfied_spec(self@, version@),
    {
        let rs = match self.op.to_ranges(self.value.as_str()) {
            Ok(rs) => rs,
            Err(e) => {
                return Err(e);
            },
        };
        let ghost rvs = ranges_views(rs@);
        let mut i: usize = 0;
        while i < rs.len()
            invariant
                i <= rs.len(),
                rvs == ranges_views(rs@),
                compile_spec(self@.op, self@.value) == Ok::<_, SpecifierError>(rvs),
                forall|j: int| 0 <= j < i ==> !in_interval(rvs[j].0, rvs[j].1, version@),
            decreases rs.len() - i,
        {
            let rg = &rs[i];
            if rg.start.le(version) && version.lt(&rg.end) {
                proof {
                    assert(in_interval(rvs[i as int].0, rvs[i as int].1, version@));
                }
                return Ok(true);
            }
            i += 1;
        }
        proof {
            assert(!in_any(rvs, version@));
        }
        Ok(false)
    }
}

impl Specifiers {
    /// Whether every constraint in the collection accepts the literal:
    /// members are checked in order, the first failure propagates, and the
    /// first unsatisfied member ends the walk.
    pub fn satisfied_by(&self, version: &Version) -> (r: Result<bool, SpecifierError>)
        ensures
            r == specs_eval(self@, version@),
    {
        let mut i: usize = 0;
        while i < self.0.len()
            invariant
                i <= self.0.len(),
                specs_eval(self@, version@) == specs_eval_from(self@, version@, i as int),
            decreases self.0.len() - i,
        {
            match self.0[i].satisfied_by(version) {
                Err(e) => {
                    return Err(e);
                },
                Ok(false) => {
                    return Ok(false);
                },
                Ok(true) => {},
            }
            i += 1;
        }
        Ok(true)
    }
}

proof fn lemma_conjunction_from(ss: Seq<SpecifierView>, w: VersionView, k: int)
    requires
        0 <= k <= ss.len(),
        forall|i: int| k <= i < ss.len() ==> (#[trigger] satisfied_spec(ss[i], w)) is Ok,
    ensures
        specs_eval_from(ss, w, k) == Ok::<bool, SpecifierError>(
            forall|i: int|
                k <= i < ss.len() ==> #[trigger] satisfied_spec(ss[i], w) == Ok::<
                    bool,
                    SpecifierError,
                >(true),
        ),
    decreases ss.len() - k,
{
    if k < ss.len() {
        lemma_conjunction_from(ss, w, k + 1);
        assert(satisfied_spec(ss[k], w) is Ok);
        if satisfied_spec(ss[k], w) == Ok::<bool, SpecifierError>(true) {
            assert(specs_eval_from(ss, w, k) == specs_eval_from(ss, w, k + 1));
        } else {
            assert(specs_eval_from(ss, w, k) == Ok::<bool, SpecifierError>(false));
            assert(!(forall|i: int|
                k <= i < ss.len() ==> #[trigger] satisfied_spec(ss[i], w) == Ok::<
                    bool,
                    SpecifierError,
                >(true))) by {
                assert(!(satisfied_spec(ss[k], w) == Ok::<bool, SpecifierError>(true)));
            }
        }
    }
}

/// Conjunction law: where every member compiles, the collection is
/// satisfied exactly when each member is satisfied on its own; the order of
/// the members does not affect the outcome.
pub proof fn lemma_conjunction(ss: Seq<SpecifierView>, w: VersionView)
    requires
        forall|i: int| 0 <= i < ss.len() ==> (#[trigger] satisfied_spec(ss[i], w)) is Ok,
    ensures
        specs_eval(ss, w) == Ok::<bool, SpecifierError>(
            forall|i: int|
                0 <= i < ss.len() ==> #[trigger] satisfied_spec(ss[i], w) == Ok::<
                    bool,
                    SpecifierError,
                >(true),
        ),
{
    lemma_conjunction_from(ss, w, 0);
}

/// Complement law: for a non-wildcard right-hand side, the Equal and
/// NotEqual constraints partition the order between the sentinels — every
/// well-formed literal below the INFINITY sentinel satisfies exactly one of
/// the two.
pub proof fn lemma_complement(s: Seq<char>, v: VersionView, w: VersionView)
    requires
        !has_wildcard(s),
        parsed_version(s) == Some(v),
        view_wf(w),
        spec_lt(w, infinity_view()),
    ensures
        satisfied_spec((SpecifierView { op: CompareOp::Equal, value: s }), w) matches Ok(b)
            && satisfied_spec((SpecifierView { op: CompareOp::NotEqual, value: s }), w) == Ok::<
            bool,
            SpecifierError,
        >(!b),
{
    let n = next_of(v);
    let rs_eq = seq![(v, n)];
    let rs_ne = seq![(zero_view(), v), (n, infinity_view())];
    assert(wildcard_stem(s) == s);
    assert(compile_spec(CompareOp::Equal, s) == Ok::<_, SpecifierError>(rs_eq));
    assert(compile_spec(CompareOp::NotEqual, s) == Ok::<_, SpecifierError>(rs_ne));
    lemma_zero_min(w);
    lemma_next_greater(v);
    lemma_version_antisym(v, w);
    lemma_version_antisym(n, w);
    lemma_version_cmp_range(v, w);
    lemma_version_cmp_range(n, w);
    let b = in_interval(v, n, w);
    assert(in_any(rs_eq, w) == b) by {
        if in_any(rs_eq, w) {
            let i = choose|i: int| 0 <= i < rs_eq.len() && in_interval(rs_eq[i].0, rs_eq[i].1, w);
            assert(i == 0);
        }
        if b {
            assert(in_interval(rs_eq[0].0, rs_eq[0].1, w));
        }
    }
    assert(in_any(rs_ne, w) == !b) by {
        if b {
            assert(!in_interval(rs_ne[0].0, rs_ne[0].1, w));
            assert(!in_interval(rs_ne[1].0, rs_ne[1].1, w));
            if in_any(rs_ne, w) {
                let i = choose|i: int|
                    0 <= i < rs_ne.len() && in_interval(rs_ne[i].0, rs_ne[i].1, w);
                assert(i == 0 || i == 1);
                assert(false);
            }
        } else {
            if !spec_le(v, w) {
                assert(in_interval(rs_ne[0].0, rs_ne[0].1, w));
                assert(in_any(rs_ne, w));
            } else {
                assert(!spec_lt(w, n));
                assert(spec_le(n, w));
                assert(in_interval(rs_ne[1].0, rs_ne[1].1, w));
                assert(in_any(rs_ne, w));
            }
        }
    }
}

/// Wildcard containment law: an Equal constraint on a wildcard whose stem
/// is a plain release accepts exactly the well-formed literals that match
/// the stem's epoch and whose padded release agrees with the stem's release
/// everywhere the stem defines it, whatever their pre, post, dev or local
/// suffix.
pub proof fn lemma_wildcard_containment(s: Seq<char>, v: VersionView, w: VersionView)
    requires
        has_wildcard(s),
        parsed_version(wildcard_stem(s)) == Some(v),
        view_wf(v),
        view_wf(w),
        v.pre is None,
        v.post is None,
        v.dev is None,
        v.local.len() == 0,
        v.release[v.release.len() - 1] < u32::MAX as int,
    ensures
        satisfied_spec((SpecifierView { op: CompareOp::Equal, value: s }), w) == Ok::<
            bool,
            SpecifierError,
        >(
            w.epoch == v.epoch && forall|i: int|
                0 <= i < v.release.len() ==> rel_at(w.release, i) == #[trigger] rel_at(
                    v.release,
                    i,
                ),
        ),
{
    let low = wildcard_low(v);
    let high = wildcard_high(v);
    let rs = seq![(low, high)];
    assert(!wildcard_overflow(v));
    assert(compile_spec(CompareOp::Equal, s) == Ok::<_, SpecifierError>(rs));
    assert(high.release == bump_last(v.release));
    lemma_version_antisym(low, w);
    lemma_version_antisym(high, w);
    lemma_release_antisym(low.release, w.release, 0);
    lemma_release_antisym(high.release, w.release, 0);
    let member = in_interval(low, high, w);
    assert(in_any(rs, w) == member) by {
        if in_any(rs, w) {
            let i = choose|i: int| 0 <= i < rs.len() && in_interval(rs[i].0, rs[i].1, w);
            assert(i == 0);
        }
        if member {
            assert(in_interval(rs[0].0, rs[0].1, w));
        }
    }
    let bounded = release_cmp(v.release, w.release) <= 0 && release_cmp(high.release, w.release)
        > 0;
    assert(member == (w.epoch == v.epoch && bounded)) by {
        if w.epoch == v.epoch && bounded {
            lemma_floor_min(low, w);
            assert(spec_lt(w, high));
        }
        if member {
            assert(w.epoch == v.epoch);
            if release_cmp(v.release, w.release) > 0 {
                assert(!spec_le(low, w));
            }
            if release_cmp(high.release, w.release) <= 0 {
                lemma_floor_min(high, w);
                assert(!spec_lt(w, high));
            }
        }
    }
    lemma_release_between(v.release, w.release, 0);
}

} // verus!
