//! Laws of the total order over version literals: reflexivity, antisymmetry,
//! transitivity and totality of the three-way comparison, the field-wise
//! meaning of order-equivalence, the global minimum, and the adjacency of
//! `next`.

use vstd::prelude::*;

use crate::version::{
    bump_last, bytes_cmp_from, dev_cmp, local_cmp, local_cmp_from, next_of, post_cmp, pre_class,
    pre_num, rel_at, release_cmp, release_cmp_from, seg_cmp, seg_wf, spec_eqv, spec_le, spec_lt,
    version_cmp, view_wf, zero_view, LocalSegView, VersionView,
};

verus! {

pub proof fn lemma_bytes_refl(a: Seq<u8>, i: int)
    ensures
        bytes_cmp_from(a, a, i) == 0,
    decreases a.len() - i,
{
    if i < a.len() {
        lemma_bytes_refl(a, i + 1);
    }
}

pub proof fn lemma_bytes_antisym(a: Seq<u8>, b: Seq<u8>, i: int)
    ensures
        bytes_cmp_from(a, b, i) == -bytes_cmp_from(b, a, i),
    decreases vstd::math::max(a.len() as int, b.len() as int) - i,
{
    if i < a.len() || i < b.len() {
        lemma_bytes_antisym(a, b, i + 1);
    }
}

pub proof fn lemma_bytes_trans(a: Seq<u8>, b: Seq<u8>, c: Seq<u8>, i: int)
    requires
        bytes_cmp_from(a, b, i) <= 0,
        bytes_cmp_from(b, c, i) <= 0,
    ensures
        bytes_cmp_from(a, c, i) <= 0,
        bytes_cmp_from(a, c, i) == 0 ==> bytes_cmp_from(a, b, i) == 0 && bytes_cmp_from(b, c, i)
            == 0,
    decreases vstd::math::max(vstd::math::max(a.len() as int, b.len() as int), c.len() as int) - i,
{
    if i >= a.len() && i >= b.len() && i >= c.len() {
    } else if i < a.len() && i < b.len() && i < c.len() && a[i] == b[i] && b[i] == c[i] {
        lemma_bytes_trans(a, b, c, i + 1);
    }
}

pub proof fn lemma_bytes_range(a: Seq<u8>, b: Seq<u8>, i: int)
    ensures
        -1 <= bytes_cmp_from(a, b, i) <= 1,
    decreases vstd::math::max(a.len() as int, b.len() as int) - i,
{
    if i < a.len() || i < b.len() {
        lemma_bytes_range(a, b, i + 1);
    }
}

pub proof fn lemma_release_range(a: Seq<int>, b: Seq<int>, i: int)
    ensures
        -1 <= release_cmp_from(a, b, i) <= 1,
    decreases vstd::math::max(a.len() as int, b.len() as int) - i,
{
    if i < a.len() || i < b.len() {
        lemma_release_range(a, b, i + 1);
    }
}

pub proof fn lemma_local_range(a: Seq<LocalSegView>, b: Seq<LocalSegView>, i: int)
    ensures
        -1 <= local_cmp_from(a, b, i) <= 1,
    decreases vstd::math::max(a.len() as int, b.len() as int) - i,
{
    if i < a.len() && i < b.len() {
        match (a[i], b[i]) {
            (LocalSegView::Text(s), LocalSegView::Text(t)) => lemma_bytes_range(s, t, 0),
            _ => {},
        }
        lemma_local_range(a, b, i + 1);
    }
}

pub proof fn lemma_seg_refl(a: LocalSegView)
    ensures
        seg_cmp(a, a) == 0,
{
    match a {
        LocalSegView::Text(s) => lemma_bytes_refl(s, 0),
        LocalSegView::Number(_) => {},
    }
}

pub proof fn lemma_seg_antisym(a: LocalSegView, b: LocalSegView)
    ensures
        seg_cmp(a, b) == -seg_cmp(b, a),
{
    match (a, b) {
        (LocalSegView::Text(s), LocalSegView::Text(t)) => lemma_bytes_antisym(s, t, 0),
        _ => {},
    }
}

pub proof fn lemma_seg_trans(a: LocalSegView, b: LocalSegView, c: LocalSegView)
    requires
        seg_cmp(a, b) <= 0,
        seg_cmp(b, c) <= 0,
    ensures
        seg_cmp(a, c) <= 0,
        seg_cmp(a, c) == 0 ==> seg_cmp(a, b) == 0 && seg_cmp(b, c) == 0,
{
    match (a, b, c) {
        (LocalSegView::Text(s), LocalSegView::Text(t), LocalSegView::Text(u)) => {
            lemma_bytes_trans(s, t, u, 0);
        },
        _ => {},
    }
}

pub proof fn lemma_local_refl(a: Seq<LocalSegView>, i: int)
    ensures
        local_cmp_from(a, a, i) == 0,
    decreases a.len() - i,
{
    if i < a.len() {
        lemma_seg_refl(a[i]);
        lemma_local_refl(a, i + 1);
    }
}

pub proof fn lemma_local_antisym(a: Seq<LocalSegView>, b: Seq<LocalSegView>, i: int)
    ensures
        local_cmp_from(a, b, i) == -local_cmp_from(b, a, i),
    decreases vstd::math::max(a.len() as int, b.len() as int) - i,
{
    if i < a.len() && i < b.len() {
        lemma_seg_antisym(a[i], b[i]);
        lemma_local_antisym(a, b, i + 1);
    }
}

pub proof fn lemma_local_trans(a: Seq<LocalSegView>, b: Seq<LocalSegView>, c: Seq<LocalSegView>, i: int)
    requires
        local_cmp_from(a, b, i) <= 0,
        local_cmp_from(b, c, i) <= 0,
    ensures
        local_cmp_from(a, c, i) <= 0,
        local_cmp_from(a, c, i) == 0 ==> local_cmp_from(a, b, i) == 0 && local_cmp_from(b, c, i)
            == 0,
    decreases vstd::math::max(vstd::math::max(a.len() as int, b.len() as int), c.len() as int) - i,
{
    if i >= a.len() && i >= b.len() && i >= c.len() {
    } else if i < a.len() && i < b.len() && i < c.len() {
        lemma_seg_trans(a[i], b[i], c[i]);
        if seg_cmp(a[i], b[i]) == 0 && seg_cmp(b[i], c[i]) == 0 {
            lemma_local_trans(a, b, c, i + 1);
        }
    }
}

pub proof fn lemma_release_refl(a: Seq<int>, i: int)
    ensures
        release_cmp_from(a, a, i) == 0,
    decreases a.len() - i,
{
    if i < a.len() {
        lemma_release_refl(a, i + 1);
    }
}

pub proof fn lemma_release_antisym(a: Seq<int>, b: Seq<int>, i: int)
    ensures
        release_cmp_from(a, b, i) == -release_cmp_from(b, a, i),
    decreases vstd::math::max(a.len() as int, b.len() as int) - i,
{
    if i < a.len() || i < b.len() {
        lemma_release_antisym(a, b, i + 1);
    }
}

pub proof fn lemma_release_trans(a: Seq<int>, b: Seq<int>, c: Seq<int>, i: int)
    requires
        release_cmp_from(a, b, i) <= 0,
        release_cmp_from(b, c, i) <= 0,
    ensures
        release_cmp_from(a, c, i) <= 0,
        release_cmp_from(a, c, i) == 0 ==> release_cmp_from(a, b, i) == 0 && release_cmp_from(
            b,
            c,
            i,
        ) == 0,
    decreases vstd::math::max(vstd::math::max(a.len() as int, b.len() as int), c.len() as int) - i,
{
    if i >= a.len() && i >= b.len() && i >= c.len() {
    } else if rel_at(a, i) == rel_at(b, i) && rel_at(b, i) == rel_at(c, i) {
        lemma_release_trans(a, b, c, i + 1);
    }
}

/// The padded comparison is zero exactly when the padded elements agree
/// pointwise from the index on.
pub proof fn lemma_release_zero_iff(a: Seq<int>, b: Seq<int>, i: int)
    ensures
        release_cmp_from(a, b, i) == 0 <==> (forall|j: int|
            j >= i ==> #[trigger] rel_at(a, j) == rel_at(b, j)),
    decreases vstd::math::max(a.len() as int, b.len() as int) - i,
{
    if i >= a.len() && i >= b.len() {
        assert(forall|j: int| j >= i ==> #[trigger] rel_at(a, j) == rel_at(b, j));
    } else {
        lemma_release_zero_iff(a, b, i + 1);
        if rel_at(a, i) == rel_at(b, i) && release_cmp_from(a, b, i + 1) == 0 {
            assert(forall|j: int| j >= i ==> #[trigger] rel_at(a, j) == rel_at(b, j)) by {
                assert(forall|j: int| j >= i + 1 ==> #[trigger] rel_at(a, j) == rel_at(b, j));
            }
        }
    }
}

/// Past the end of the left sequence, the left side pads with zeros and so
/// compares at or below any non-negative right side.
pub proof fn lemma_release_pad(p: Seq<int>, r: Seq<int>, j: int)
    requires
        j >= p.len(),
        forall|k: int| 0 <= k < r.len() ==> #[trigger] r[k] >= 0,
    ensures
        release_cmp_from(p, r, j) <= 0,
    decreases vstd::math::max(p.len() as int, r.len() as int) - j,
{
    if j < r.len() {
        if rel_at(p, j) == rel_at(r, j) {
            lemma_release_pad(p, r, j + 1);
        }
    }
}

pub proof fn lemma_bytes_zero_iff(a: Seq<u8>, b: Seq<u8>, i: int)
    requires
        0 <= i,
    ensures
        bytes_cmp_from(a, b, i) == 0 <==> ((a.len() <= i && b.len() <= i) || (a.len() == b.len()
            && forall|j: int| i <= j < a.len() ==> a[j] == b[j])),
    decreases vstd::math::max(a.len() as int, b.len() as int) - i,
{
    if i < a.len() && i < b.len() && a[i] == b[i] {
        lemma_bytes_zero_iff(a, b, i + 1);
    }
}

pub proof fn lemma_local_zero_iff(a: Seq<LocalSegView>, b: Seq<LocalSegView>, i: int)
    requires
        0 <= i,
    ensures
        local_cmp_from(a, b, i) == 0 <==> ((a.len() <= i && b.len() <= i) || (a.len() == b.len()
            && forall|j: int| i <= j < a.len() ==> a[j] == b[j])),
    decreases vstd::math::max(a.len() as int, b.len() as int) - i,
{
    if i < a.len() && i < b.len() {
        match (a[i], b[i]) {
            (LocalSegView::Text(s), LocalSegView::Text(t)) => {
                lemma_bytes_zero_iff(s, t, 0);
                if bytes_cmp_from(s, t, 0) == 0 {
                    assert(s =~= t);
                }
            },
            _ => {},
        }
        if seg_cmp(a[i], b[i]) == 0 {
            assert(a[i] == b[i]);
            lemma_local_zero_iff(a, b, i + 1);
        }
    }
}

/// Order-equivalence is field equality up to release padding: two literals
/// compare equal exactly when their epochs, maturity markers and local
/// segments coincide and their releases agree element-wise under trailing
/// zero padding.
pub proof fn lemma_eqv_fields(a: VersionView, b: VersionView)
    ensures
        spec_eqv(a, b) <==> {
            &&& a.epoch == b.epoch
            &&& forall|j: int| j >= 0 ==> #[trigger] rel_at(a.release, j) == rel_at(b.release, j)
            &&& a.pre == b.pre
            &&& a.post == b.post
            &&& a.dev == b.dev
            &&& a.local == b.local
        },
{
    lemma_release_zero_iff(a.release, b.release, 0);
    lemma_local_zero_iff(a.local, b.local, 0);
    lemma_release_range(a.release, b.release, 0);
    lemma_local_range(a.local, b.local, 0);
    if spec_eqv(a, b) {
        assert(release_cmp(a.release, b.release) == 0);
        assert(local_cmp(a.local, b.local) == 0);
        assert(a.local =~= b.local);
        assert(pre_class(a) == pre_class(b) && pre_num(a) == pre_num(b));
        assert(a.pre == b.pre);
        assert(forall|j: int| j >= 0 ==> #[trigger] rel_at(a.release, j) == rel_at(b.release, j));
    } else {
        if a.epoch == b.epoch && a.pre == b.pre && a.post == b.post && a.dev == b.dev && a.local
            == b.local && (forall|j: int|
            j >= 0 ==> #[trigger] rel_at(a.release, j) == rel_at(b.release, j)) {
            lemma_local_refl(a.local, 0);
            assert(local_cmp(a.local, b.local) == 0);
            assert(release_cmp(a.release, b.release) == 0);
            assert(false);
        }
    }
}

/// Between a release prefix and that prefix with its last element
/// incremented lie exactly the releases whose padded elements agree with the
/// prefix everywhere the prefix is defined.
pub proof fn lemma_release_between(p: Seq<int>, r: Seq<int>, i: int)
    requires
        0 <= i < p.len(),
        forall|k: int| 0 <= k < r.len() ==> #[trigger] r[k] >= 0,
    ensures
        (release_cmp_from(p, r, i) <= 0 && release_cmp_from(bump_last(p), r, i) > 0) <==> (
        forall|j: int| i <= j < p.len() ==> #[trigger] rel_at(r, j) == rel_at(p, j)),
    decreases p.len() - i,
{
    let q = bump_last(p);
    let n = p.len() as int;
    assert(q.len() == n);
    assert(q[n - 1] == p[n - 1] + 1);
    if i == n - 1 {
        let x = p[n - 1];
        let y = rel_at(r, i);
        if y == x {
            lemma_release_pad(p, r, n);
            assert(release_cmp_from(p, r, i) <= 0);
            assert(release_cmp_from(q, r, i) == 1);
        } else if y == x + 1 {
            lemma_release_pad(q, r, n);
            assert(release_cmp_from(q, r, i) <= 0);
        }
    } else {
        assert(q[i] == p[i]);
        let x = p[i];
        let y = rel_at(r, i);
        if y == x {
            lemma_release_between(p, r, i + 1);
            if release_cmp_from(p, r, i + 1) <= 0 && release_cmp_from(q, r, i + 1) > 0 {
                assert(forall|j: int| i <= j < p.len() ==> #[trigger] rel_at(r, j) == rel_at(p, j))
                    by {
                    assert(forall|j: int|
                        i + 1 <= j < p.len() ==> #[trigger] rel_at(r, j) == rel_at(p, j));
                }
            }
        }
    }
}

/// A literal with no pre or post marker, a zero dev marker and no local
/// segment sits at or below every well-formed literal of the same epoch
/// whose release does not compare below its own.
pub proof fn lemma_floor_min(m: VersionView, w: VersionView)
    requires
        view_wf(w),
        m.pre is None,
        m.post is None,
        m.dev == Some(0int),
        m.local.len() == 0,
        m.epoch == w.epoch,
        release_cmp(m.release, w.release) <= 0,
    ensures
        spec_le(m, w),
{
    if release_cmp(m.release, w.release) == 0 {
        assert(pre_class(m) == 0);
        if pre_class(w) == 0 {
            assert(dev_cmp(m.dev, w.dev) <= 0);
            assert(local_cmp(m.local, w.local) <= 0);
        }
    }
}

pub proof fn lemma_version_cmp_range(a: VersionView, b: VersionView)
    ensures
        -1 <= version_cmp(a, b) <= 1,
{
    lemma_release_range(a.release, b.release, 0);
    lemma_local_range(a.local, b.local, 0);
}

pub proof fn lemma_version_antisym(a: VersionView, b: VersionView)
    ensures
        version_cmp(a, b) == -version_cmp(b, a),
{
    lemma_release_antisym(a.release, b.release, 0);
    lemma_local_antisym(a.local, b.local, 0);
}

pub proof fn lemma_version_trans(a: VersionView, b: VersionView, c: VersionView)
    requires
        version_cmp(a, b) <= 0,
        version_cmp(b, c) <= 0,
    ensures
        version_cmp(a, c) <= 0,
        version_cmp(a, c) == 0 ==> version_cmp(a, b) == 0 && version_cmp(b, c) == 0,
{
    lemma_release_range(a.release, b.release, 0);
    lemma_release_range(b.release, c.release, 0);
    lemma_release_range(a.release, c.release, 0);
    lemma_local_range(a.local, b.local, 0);
    lemma_local_range(b.local, c.local, 0);
    lemma_local_range(a.local, c.local, 0);
    if a.epoch == b.epoch && b.epoch == c.epoch {
        let rab = release_cmp(a.release, b.release);
        let rbc = release_cmp(b.release, c.release);
        assert(rab <= 0 && rbc <= 0);
        lemma_release_trans(a.release, b.release, c.release, 0);
        if release_cmp(a.release, c.release) == 0 {
            assert(rab == 0 && rbc == 0);
            if pre_class(a) == pre_class(c) && pre_num(a) == pre_num(c) && post_cmp(a.post, c.post)
                == 0 && dev_cmp(a.dev, c.dev) == 0 {
                let lab = local_cmp(a.local, b.local);
                let lbc = local_cmp(b.local, c.local);
                assert(lab <= 0 && lbc <= 0);
                lemma_local_trans(a.local, b.local, c.local, 0);
            }
        }
    }
}

/// Totality of the order: for any two literals exactly one of
/// `a < b`, `a` order-equivalent to `b`, `b < a` holds.
pub proof fn lemma_order_total(a: VersionView, b: VersionView)
    ensures
        spec_lt(a, b) || spec_eqv(a, b) || spec_lt(b, a),
        spec_lt(a, b) ==> !spec_eqv(a, b) && !spec_lt(b, a),
        spec_eqv(a, b) ==> !spec_lt(a, b) && !spec_lt(b, a),
        spec_lt(b, a) ==> !spec_lt(a, b) && !spec_eqv(a, b),
{
    lemma_version_antisym(a, b);
}

/// Every well-formed literal sits at or above the `ZERO` sentinel.
pub proof fn lemma_zero_min(w: VersionView)
    requires
        view_wf(w),
    ensures
        spec_le(zero_view(), w),
{
    let z = zero_view();
    if z.epoch == w.epoch {
        assert(rel_at(z.release, 0) == 0);
        if rel_at(w.release, 0) == 0 {
            lemma_release_pad(z.release, w.release, 1);
        }
        if release_cmp(z.release, w.release) == 0 {
            assert(pre_class(z) == 0);
        }
    }
}

/// `next` yields a strictly greater literal.
pub proof fn lemma_next_greater(v: VersionView)
    ensures
        spec_lt(v, next_of(v)),
{
    lemma_release_refl(v.release, 0);
    lemma_local_push(v.local, LocalSegView::Text(Seq::empty()), 0);
}

/// Appending any segment to a local list yields a strictly greater list.
pub proof fn lemma_local_push(l: Seq<LocalSegView>, x: LocalSegView, i: int)
    requires
        0 <= i <= l.len(),
    ensures
        local_cmp_from(l, l.push(x), i) == -1,
    decreases l.len() - i,
{
    if i < l.len() {
        assert(l.push(x)[i] == l[i]);
        lemma_seg_refl(l[i]);
        lemma_local_push(l, x, i + 1);
    }
}

/// A well-formed local list strictly above `l` stays at or above `l` with an
/// empty text segment appended: nothing well-formed fits in between.
pub proof fn lemma_local_between(l: Seq<LocalSegView>, m: Seq<LocalSegView>, i: int)
    requires
        0 <= i,
        forall|k: int| 0 <= k < m.len() ==> seg_wf(#[trigger] m[k]),
        local_cmp_from(l, m, i) < 0,
    ensures
        local_cmp_from(l.push(LocalSegView::Text(Seq::empty())), m, i) <= 0,
    decreases vstd::math::max(l.len() as int, m.len() as int) + 1 - i,
{
    let p = l.push(LocalSegView::Text(Seq::empty()));
    if i >= l.len() {
        if i < m.len() {
            if i == l.len() {
                match m[i] {
                    LocalSegView::Number(_) => {},
                    LocalSegView::Text(t) => {
                        assert(seg_wf(m[i]));
                        assert(bytes_cmp_from(Seq::<u8>::empty(), t, 0) == -1);
                    },
                }
                assert(seg_cmp(p[i], m[i]) == -1);
            }
        }
    } else {
        assert(p[i] == l[i]);
        if seg_cmp(l[i], m[i]) == 0 {
            lemma_local_between(l, m, i + 1);
        }
    }
}

/// Adjacency of `next`: no well-formed literal lies strictly between a
/// literal and its `next`.
pub proof fn lemma_next_adjacent(v: VersionView, w: VersionView)
    requires
        view_wf(w),
    ensures
        !(spec_lt(v, w) && spec_lt(w, next_of(v))),
{
    let n = next_of(v);
    if spec_lt(v, w) && spec_lt(w, n) {
        lemma_version_antisym(v, w);
        lemma_version_antisym(w, n);
        lemma_release_antisym(v.release, w.release, 0);
        lemma_local_antisym(v.local, w.local, 0);
        lemma_local_antisym(w.local, n.local, 0);
        assert(v.epoch == w.epoch);
        assert(release_cmp(v.release, w.release) == 0);
        assert(pre_class(v) == pre_class(n) && pre_num(v) == pre_num(n));
        assert(pre_class(v) == pre_class(w) && pre_num(v) == pre_num(w));
        assert(post_cmp(v.post, w.post) == 0);
        assert(dev_cmp(v.dev, w.dev) == 0);
        assert(local_cmp(v.local, w.local) < 0);
        assert(local_cmp(w.local, n.local) < 0);
        lemma_local_between(v.local, w.local, 0);
        assert(local_cmp(n.local, w.local) <= 0);
        lemma_local_antisym(n.local, w.local, 0);
        assert(false);
    }
}

} // verus!
