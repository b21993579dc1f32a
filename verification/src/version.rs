//! The version literal value type and its total order.
//!
//! A version literal holds an epoch, a dotted release sequence, optional
//! pre/post/dev maturity markers, and a local segment list. The order is
//! lexicographic over the keys (epoch, padded release, maturity class,
//! maturity number, post, dev, local), with dev-only versions sorting below
//! pre-releases, pre-releases below the final release, and post-releases
//! above it.

use vstd::prelude::*;

verus! {

/// A pre-release marker: alpha sorts below beta, beta below release candidate.
#[derive(Clone, Copy, Debug, PartialEq, Eq)]
pub enum PreRelease {
    Alpha(u32),
    Beta(u32),
    ReleaseCandidate(u32),
}

/// One segment of a local version: purely numeric, or lowercase text held as
/// its bytes. Text sorts below numbers; text against text is bytewise.
#[derive(Clone, Debug, PartialEq, Eq)]
pub enum LocalSegment {
    Number(u32),
    Text(Vec<u8>),
}

/// A version literal. All fields are plain values; the type is immutable in
/// use — derived versions are built fresh, never by mutation. Its `==` is
/// order-equivalence, not field equality: a release compares with implicit
/// trailing zero padding.
#[derive(Clone, Debug)]
pub struct Version {
    pub epoch: u32,
    pub release: Vec<u32>,
    pub pre: Option<PreRelease>,
    pub post: Option<u32>,
    pub dev: Option<u32>,
    pub local: Vec<LocalSegment>,
}

/// Mathematical image of a pre-release marker.
pub enum PreView {
    Alpha(int),
    Beta(int),
    ReleaseCandidate(int),
}

/// Mathematical image of a local segment.
pub enum LocalSegView {
    Number(int),
    Text(Seq<u8>),
}

/// Mathematical image of a version literal: unbounded integers and sequences.
#[verifier::ext_equal]
pub struct VersionView {
    pub epoch: int,
    pub release: Seq<int>,
    pub pre: Option<PreView>,
    pub post: Option<int>,
    pub dev: Option<int>,
    pub local: Seq<LocalSegView>,
}

impl View for PreRelease {
    type V = PreView;

    open spec fn view(&self) -> PreView {
        match *self {
            PreRelease::Alpha(n) => PreView::Alpha(n as int),
            PreRelease::Beta(n) => PreView::Beta(n as int),
            PreRelease::ReleaseCandidate(n) => PreView::ReleaseCandidate(n as int),
        }
    }
}

impl View for LocalSegment {
    type V = LocalSegView;

    open spec fn view(&self) -> LocalSegView {
        match *self {
            LocalSegment::Number(n) => LocalSegView::Number(n as int),
            LocalSegment::Text(ref b) => LocalSegView::Text(b@),
        }
    }
}

impl View for Version {
    type V = VersionView;

    open spec fn view(&self) -> VersionView {
        VersionView {
            epoch: self.epoch as int,
            release: self.release@.map_values(|x: u32| x as int),
            pre: match self.pre {
                Some(p) => Some(p@),
                None => None,
            },
            post: match self.post {
                Some(n) => Some(n as int),
                None => None,
            },
            dev: match self.dev {
                Some(n) => Some(n as int),
                None => None,
            },
            local: self.local@.map_values(|s: LocalSegment| s@),
        }
    }
}

/// A well-formed local segment: text is never empty.
pub open spec fn seg_wf(s: LocalSegView) -> bool {
    match s {
        LocalSegView::Number(n) => n >= 0,
        LocalSegView::Text(b) => b.len() > 0,
    }
}

/// A well-formed version literal: at least one release element, all numbers
/// non-negative, all local text segments non-empty. Every literal the
/// grammar yields is well-formed; the synthetic bounds built by `next` are
/// not, which is what lets them sit strictly between a literal and every
/// well-formed literal above it.
pub open spec fn view_wf(v: VersionView) -> bool {
    &&& v.release.len() >= 1
    &&& v.epoch >= 0
    &&& forall|i: int| 0 <= i < v.release.len() ==> v.release[i] >= 0
    &&& match v.pre {
        Some(PreView::Alpha(n)) => n >= 0,
        Some(PreView::Beta(n)) => n >= 0,
        Some(PreView::ReleaseCandidate(n)) => n >= 0,
        None => true,
    }
    &&& match v.post {
        Some(n) => n >= 0,
        None => true,
    }
    &&& match v.dev {
        Some(n) => n >= 0,
        None => true,
    }
    &&& forall|i: int| 0 <= i < v.local.len() ==> seg_wf(#[trigger] v.local[i])
}

/// Three-way comparison of two integers.
pub open spec fn int_cmp(a: int, b: int) -> int {
    if a < b {
        -1
    } else if a > b {
        1
    } else {
        0
    }
}

/// The release element at an index, with implicit trailing zero padding.
pub open spec fn rel_at(r: Seq<int>, i: int) -> int {
    if 0 <= i < r.len() {
        r[i]
    } else {
        0
    }
}

/// Element-wise comparison of two release sequences from an index on, with
/// implicit trailing zero padding for the shorter one.
pub open spec fn release_cmp_from(a: Seq<int>, b: Seq<int>, i: int) -> int
    decreases vstd::math::max(a.len() as int, b.len() as int) - i,
{
    if i >= a.len() && i >= b.len() {
        0
    } else {
        let c = int_cmp(rel_at(a, i), rel_at(b, i));
        if c != 0 {
            c
        } else {
            release_cmp_from(a, b, i + 1)
        }
    }
}

/// Comparison of two release sequences with trailing zero padding.
pub open spec fn release_cmp(a: Seq<int>, b: Seq<int>) -> int {
    release_cmp_from(a, b, 0)
}

/// Lexicographic comparison of two byte strings from an index on; a proper
/// prefix sorts below its extensions.
pub open spec fn bytes_cmp_from(a: Seq<u8>, b: Seq<u8>, i: int) -> int
    decreases vstd::math::max(a.len() as int, b.len() as int) - i,
{
    if i >= a.len() && i >= b.len() {
        0
    } else if i >= a.len() {
        -1
    } else if i >= b.len() {
        1
    } else {
        let c = int_cmp(a[i] as int, b[i] as int);
        if c != 0 {
            c
        } else {
            bytes_cmp_from(a, b, i + 1)
        }
    }
}

/// Comparison of two local segments: text sorts below numbers, numbers
/// compare numerically, text compares bytewise.
pub open spec fn seg_cmp(a: LocalSegView, b: LocalSegView) -> int {
    match (a, b) {
        (LocalSegView::Text(s), LocalSegView::Text(t)) => bytes_cmp_from(s, t, 0),
        (LocalSegView::Text(_), LocalSegView::Number(_)) => -1,
        (LocalSegView::Number(_), LocalSegView::Text(_)) => 1,
        (LocalSegView::Number(m), LocalSegView::Number(n)) => int_cmp(m, n),
    }
}

/// Lexicographic comparison of two local segment lists from an index on; a
/// proper prefix sorts below its extensions, so in particular the empty list
/// (no local segment) sorts below every non-empty one.
pub open spec fn local_cmp_from(a: Seq<LocalSegView>, b: Seq<LocalSegView>, i: int) -> int
    decreases vstd::math::max(a.len() as int, b.len() as int) - i,
{
    if i >= a.len() && i >= b.len() {
        0
    } else if i >= a.len() {
        -1
    } else if i >= b.len() {
        1
    } else {
        let c = seg_cmp(a[i], b[i]);
        if c != 0 {
            c
        } else {
            local_cmp_from(a, b, i + 1)
        }
    }
}

/// Comparison of two local segment lists.
pub open spec fn local_cmp(a: Seq<LocalSegView>, b: Seq<LocalSegView>) -> int {
    local_cmp_from(a, b, 0)
}

/// The maturity class of a version: dev-only versions sort below
/// pre-releases, which sort below the final release and its post-releases.
/// A version that carries a post or final release with a dev marker still
/// belongs to the class of its strongest marker.
pub open spec fn pre_class(v: VersionView) -> int {
    match v.pre {
        Some(PreView::Alpha(_)) => 1,
        Some(PreView::Beta(_)) => 2,
        Some(PreView::ReleaseCandidate(_)) => 3,
        None => if v.post is None && v.dev is Some {
            0
        } else {
            4
        },
    }
}

/// The number carried by the pre-release marker, zero when there is none.
pub open spec fn pre_num(v: VersionView) -> int {
    match v.pre {
        Some(PreView::Alpha(n)) => n,
        Some(PreView::Beta(n)) => n,
        Some(PreView::ReleaseCandidate(n)) => n,
        None => 0,
    }
}

/// Comparison of two optional numbers where absence sorts first: a final
/// release sorts below all of its post-releases.
pub open spec fn post_cmp(a: Option<int>, b: Option<int>) -> int {
    match (a, b) {
        (Option::None, Option::None) => 0,
        (Option::None, Option::Some(_)) => -1,
        (Option::Some(_), Option::None) => 1,
        (Option::Some(m), Option::Some(n)) => int_cmp(m, n),
    }
}

/// Comparison of two optional numbers where absence sorts last: a dev marker
/// sorts a version below the same version without one.
pub open spec fn dev_cmp(a: Option<int>, b: Option<int>) -> int {
    match (a, b) {
        (Option::None, Option::None) => 0,
        (Option::None, Option::Some(_)) => 1,
        (Option::Some(_), Option::None) => -1,
        (Option::Some(m), Option::Some(n)) => int_cmp(m, n),
    }
}

/// The total order over version literals: three-way comparison through the
/// keys epoch, padded release, maturity class, maturity number, post, dev,
/// and finally the local segments.
pub open spec fn version_cmp(a: VersionView, b: VersionView) -> int {
    if a.epoch != b.epoch {
        int_cmp(a.epoch, b.epoch)
    } else if release_cmp(a.release, b.release) != 0 {
        release_cmp(a.release, b.release)
    } else if pre_class(a) != pre_class(b) {
        int_cmp(pre_class(a), pre_class(b))
    } else if pre_num(a) != pre_num(b) {
        int_cmp(pre_num(a), pre_num(b))
    } else if post_cmp(a.post, b.post) != 0 {
        post_cmp(a.post, b.post)
    } else if dev_cmp(a.dev, b.dev) != 0 {
        dev_cmp(a.dev, b.dev)
    } else {
        local_cmp(a.local, b.local)
    }
}

/// Strict order derived from the three-way comparison.
pub open spec fn spec_lt(a: VersionView, b: VersionView) -> bool {
    version_cmp(a, b) < 0
}

/// Non-strict order derived from the three-way comparison.
pub open spec fn spec_le(a: VersionView, b: VersionView) -> bool {
    version_cmp(a, b) <= 0
}

/// Order-equivalence: every key compares equal. Distinct field values can be
/// equivalent only through release zero-padding.
pub open spec fn spec_eqv(a: VersionView, b: VersionView) -> bool {
    version_cmp(a, b) == 0
}

/// The sequence with its last element incremented; meaningful only for a
/// non-empty sequence.
pub open spec fn bump_last(r: Seq<int>) -> Seq<int> {
    r.update(r.len() - 1, r[r.len() - 1] + 1)
}

/// The outcome of a three-way comparison of two version literals.
#[derive(Clone, Copy, Debug, PartialEq, Eq, Structural)]
pub enum VersionOrder {
    Less,
    Equal,
    Greater,
}

/// The comparison outcome that a three-way comparison sign denotes.
pub open spec fn order_of(c: int) -> VersionOrder {
    if c < 0 {
        VersionOrder::Less
    } else if c > 0 {
        VersionOrder::Greater
    } else {
        VersionOrder::Equal
    }
}

/// The order's global minimum: epoch zero, release zero, dev zero.
pub open spec fn zero_view() -> VersionView {
    VersionView {
        epoch: 0,
        release: seq![0],
        pre: None,
        post: None,
        dev: Some(0),
        local: Seq::empty(),
    }
}

/// The order's practical maximum: every numeric field at the largest
/// representable value. Literals beyond it exist (a longer release at the
/// same epoch), but none that an installer meets.
pub open spec fn infinity_view() -> VersionView {
    VersionView {
        epoch: u32::MAX as int,
        release: seq![u32::MAX as int],
        pre: None,
        post: Some(u32::MAX as int),
        dev: None,
        local: seq![LocalSegView::Number(u32::MAX as int)],
    }
}

/// The least upper neighbour of a literal: the same literal with an empty
/// text segment appended to its local part. It sorts strictly above the
/// literal, and no well-formed literal fits strictly between the two.
pub open spec fn next_of(v: VersionView) -> VersionView {
    VersionView { local: v.local.push(LocalSegView::Text(Seq::empty())), ..v }
}

impl PartialEq for Version {
    fn eq(&self, other: &Version) -> (r: bool) {
        self.eqv(other)
    }
}

impl Eq for Version {

}

impl vstd::std_specs::cmp::PartialEqSpecImpl for Version {
    open spec fn obeys_eq_spec() -> bool {
        true
    }

    open spec fn eq_spec(&self, other: &Version) -> bool {
        spec_eqv(self@, other@)
    }
}

fn release_compare(a: &Vec<u32>, b: &Vec<u32>) -> (c: i8)
    ensures
        c as int == release_cmp(
            a@.map_values(|x: u32| x as int),
            b@.map_values(|x: u32| x as int),
        ),
        -1 <= c <= 1,
{
    let ghost ga = a@.map_values(|x: u32| x as int);
    let ghost gb = b@.map_values(|x: u32| x as int);
    let n: usize = if a.len() > b.len() {
        a.len()
    } else {
        b.len()
    };
    let mut i: usize = 0;
    while i < n
        invariant
            i <= n,
            n == vstd::math::max(a.len() as int, b.len() as int),
            ga == a@.map_values(|x: u32| x as int),
            gb == b@.map_values(|x: u32| x as int),
            release_cmp(ga, gb) == release_cmp_from(ga, gb, i as int),
        decreases n - i,
    {
        let x: u32 = if i < a.len() {
            a[i]
        } else {
            0
        };
        let y: u32 = if i < b.len() {
            b[i]
        } else {
            0
        };
        proof {
            assert(rel_at(ga, i as int) == x as int);
            assert(rel_at(gb, i as int) == y as int);
        }
        if x < y {
            return -1;
        }
        if x > y {
            return 1;
        }
        i += 1;
    }
    0
}

fn bytes_compare(a: &Vec<u8>, b: &Vec<u8>) -> (c: i8)
    ensures
        c as int == bytes_cmp_from(a@, b@, 0),
        -1 <= c <= 1,
{
    let mut i: usize = 0;
    loop
        invariant
            i <= a.len() || i <= b.len(),
            bytes_cmp_from(a@, b@, 0) == bytes_cmp_from(a@, b@, i as int),
        decreases a@.len() + b@.len() - i,
    {
        if i >= a.len() && i >= b.len() {
            return 0;
        }
        if i >= a.len() {
            return -1;
        }
        if i >= b.len() {
            return 1;
        }
        if a[i] < b[i] {
            return -1;
        }
        if a[i] > b[i] {
            return 1;
        }
        i += 1;
    }
}

fn seg_compare(a: &LocalSegment, b: &LocalSegment) -> (c: i8)
    ensures
        c as int == seg_cmp(a@, b@),
        -1 <= c <= 1,
{
    match (a, b) {
        (LocalSegment::Text(s), LocalSegment::Text(t)) => bytes_compare(s, t),
        (LocalSegment::Text(_), LocalSegment::Number(_)) => -1,
        (LocalSegment::Number(_), LocalSegment::Text(_)) => 1,
        (LocalSegment::Number(m), LocalSegment::Number(n)) => {
            if m < n {
                -1
            } else if m > n {
                1
            } else {
                0
            }
        },
    }
}

fn local_compare(a: &Vec<LocalSegment>, b: &Vec<LocalSegment>) -> (c: i8)
    ensures
        c as int == local_cmp(
            a@.map_values(|s: LocalSegment| s@),
            b@.map_values(|s: LocalSegment| s@),
        ),
        -1 <= c <= 1,
{
    let ghost ga = a@.map_values(|s: LocalSegment| s@);
    let ghost gb = b@.map_values(|s: LocalSegment| s@);
    let mut i: usize = 0;
    loop
        invariant
            ga == a@.map_values(|s: LocalSegment| s@),
            gb == b@.map_values(|s: LocalSegment| s@),
            local_cmp(ga, gb) == local_cmp_from(ga, gb, i as int),
        decreases ga.len() + gb.len() - i,
    {
        if i >= a.len() && i >= b.len() {
            return 0;
        }
        if i >= a.len() {
            return -1;
        }
        if i >= b.len() {
            return 1;
        }
        let c = seg_compare(&a[i], &b[i]);
        if c != 0 {
            return c;
        }
        i += 1;
    }
}

fn pre_key(v: &Version) -> (k: (u8, u32))
    ensures
        k.0 as int == pre_class(v@),
        k.1 as int == pre_num(v@),
{
    match v.pre {
        Some(PreRelease::Alpha(n)) => (1, n),
        Some(PreRelease::Beta(n)) => (2, n),
        Some(PreRelease::ReleaseCandidate(n)) => (3, n),
        None => {
            if v.post.is_none() && v.dev.is_some() {
                (0, 0)
            } else {
                (4, 0)
            }
        },
    }
}

pub(crate) fn copy_u32_vec(a: &Vec<u32>) -> (r: Vec<u32>)
    ensures
        r@ == a@,
{
    let mut r: Vec<u32> = Vec::new();
    let mut i: usize = 0;
    while i < a.len()
        invariant
            i <= a.len(),
            r@ == a@.subrange(0, i as int),
        decreases a.len() - i,
    {
        r.push(a[i]);
        i += 1;
    }
    proof {
        assert(r@ =~= a@);
    }
    r
}

fn copy_bytes(a: &Vec<u8>) -> (r: Vec<u8>)
    ensures
        r@ == a@,
{
    let mut r: Vec<u8> = Vec::new();
    let mut i: usize = 0;
    while i < a.len()
        invariant
            i <= a.len(),
            r@ == a@.subrange(0, i as int),
        decreases a.len() - i,
    {
        r.push(a[i]);
        i += 1;
    }
    proof {
        assert(r@ =~= a@);
    }
    r
}

fn copy_segment(s: &LocalSegment) -> (r: LocalSegment)
    ensures
        r@ == s@,
{
    match s {
        LocalSegment::Number(n) => LocalSegment::Number(*n),
        LocalSegment::Text(b) => LocalSegment::Text(copy_bytes(b)),
    }
}

pub(crate) fn copy_local_vec(a: &Vec<LocalSegment>) -> (r: Vec<LocalSegment>)
    ensures
        r@.map_values(|s: LocalSegment| s@) == a@.map_values(|s: LocalSegment| s@),
{
    let mut r: Vec<LocalSegment> = Vec::new();
    let mut i: usize = 0;
    while i < a.len()
        invariant
            i <= a.len(),
            r@.len() == i,
            forall|j: int| 0 <= j < i ==> (#[trigger] r@[j])@ == a@[j]@,
        decreases a.len() - i,
    {
        r.push(copy_segment(&a[i]));
        i += 1;
    }
    proof {
        assert(r@.map_values(|s: LocalSegment| s@) =~= a@.map_values(|s: LocalSegment| s@));
    }
    r
}

impl Version {
    /// The view of a copy equals the view of the original.
    pub fn duplicate(&self) -> (r: Version)
        ensures
            r@ == self@,
    {
        let r = Version {
            epoch: self.epoch,
            release: copy_u32_vec(&self.release),
            pre: self.pre,
            post: self.post,
            dev: self.dev,
            local: copy_local_vec(&self.local),
        };
        proof {
            assert(r@ =~= self@);
        }
        r
    }

    /// Three-way comparison in the total order over version literals.
    pub fn compare(&self, other: &Version) -> (c: VersionOrder)
        ensures
            c == order_of(version_cmp(self@, other@)),
    {
        if self.epoch < other.epoch {
            return VersionOrder::Less;
        }
        if self.epoch > other.epoch {
            return VersionOrder::Greater;
        }
        let rc = release_compare(&self.release, &other.release);
        if rc < 0 {
            return VersionOrder::Less;
        }
        if rc > 0 {
            return VersionOrder::Greater;
        }
        let ka = pre_key(self);
        let kb = pre_key(other);
        if ka.0 < kb.0 {
            return VersionOrder::Less;
        }
        if ka.0 > kb.0 {
            return VersionOrder::Greater;
        }
        if ka.1 < kb.1 {
            return VersionOrder::Less;
        }
        if ka.1 > kb.1 {
            return VersionOrder::Greater;
        }
        match (self.post, other.post) {
            (None, Some(_)) => {
                return VersionOrder::Less;
            },
            (Some(_), None) => {
                return VersionOrder::Greater;
            },
            (Some(m), Some(n)) => {
                if m < n {
                    return VersionOrder::Less;
                }
                if m > n {
                    return VersionOrder::Greater;
                }
            },
            (None, None) => {},
        }
        match (self.dev, other.dev) {
            (Some(_), None) => {
                return VersionOrder::Less;
            },
            (None, Some(_)) => {
                return VersionOrder::Greater;
            },
            (Some(m), Some(n)) => {
                if m < n {
                    return VersionOrder::Less;
                }
                if m > n {
                    return VersionOrder::Greater;
                }
            },
            (None, None) => {},
        }
        let lc = local_compare(&self.local, &other.local);
        if lc < 0 {
            VersionOrder::Less
        } else if lc > 0 {
            VersionOrder::Greater
        } else {
            VersionOrder::Equal
        }
    }

    /// Strict order test.
    pub fn lt(&self, other: &Version) -> (b: bool)
        ensures
            b == spec_lt(self@, other@),
    {
        match self.compare(other) {
            VersionOrder::Less => true,
            _ => false,
        }
    }

    /// Non-strict order test.
    pub fn le(&self, other: &Version) -> (b: bool)
        ensures
            b == spec_le(self@, other@),
    {
        match self.compare(other) {
            VersionOrder::Greater => false,
            _ => true,
        }
    }

    /// The order's global minimum among well-formed literals.
    pub fn zero() -> (v: Version)
        ensures
            v@ == zero_view(),
    {
        let mut release: Vec<u32> = Vec::new();
        release.push(0);
        let v = Version {
            epoch: 0,
            release,
            pre: None,
            post: None,
            dev: Some(0),
            local: Vec::new(),
        };
        proof {
            assert(v@ =~= zero_view());
        }
        v
    }

    /// The order's practical maximum.
    pub fn infinity() -> (v: Version)
        ensures
            v@ == infinity_view(),
    {
        let mut release: Vec<u32> = Vec::new();
        release.push(u32::MAX);
        let mut local: Vec<LocalSegment> = Vec::new();
        local.push(LocalSegment::Number(u32::MAX));
        let v = Version {
            epoch: u32::MAX,
            release,
            pre: None,
            post: Some(u32::MAX),
            dev: None,
            local,
        };
        proof {
            assert(v@ =~= infinity_view());
        }
        v
    }

    /// Order-equivalence test: equality after release zero-padding.
    pub fn eqv(&self, other: &Version) -> (b: bool)
        ensures
            b == spec_eqv(self@, other@),
    {
        matches!(self.compare(other), VersionOrder::Equal)
    }

    /// The least literal strictly greater than this one, used to turn an
    /// inclusive upper bound into a half-open one.
    pub fn next(&self) -> (r: Version)
        ensures
            r@ == next_of(self@),
    {
        let mut local = copy_local_vec(&self.local);
        local.push(LocalSegment::Text(Vec::new()));
        let r = Version {
            epoch: self.epoch,
            release: copy_u32_vec(&self.release),
            pre: self.pre,
            post: self.post,
            dev: self.dev,
            local,
        };
        proof {
            assert(r@.local =~= next_of(self@).local);
            assert(r@ =~= next_of(self@));
        }
        r
    }
}

} // verus!
