use vstd::prelude::*;

use crate::controller::{first_endpoint_hit, skip_index, step_move, SNAP_TOLERANCE};
use crate::geometry::{dist2, lies_on_segment, nearest_endpoint_within, slack_below, Line, Point};
use crate::state::{step_delete, DrawingView};

verus! {

/// Deleting is idempotent: without a selection it changes nothing, and a second
/// delete right after a first one changes nothing more.
pub proof fn lemma_delete_idempotent(v: DrawingView)
    requires
        v.wf(),
    ensures
        v.selected is None ==> step_delete(v) == v,
        step_delete(step_delete(v)) == step_delete(v),
        step_delete(v).selected is None,
{
}

/// Deleting the selected segment keeps the segments before it in place, moves
/// those after it down by one, and clears the selection.
pub proof fn lemma_delete_reindexes(v: DrawingView)
    requires
        v.wf(),
        v.selected is Some,
    ensures
        ({
            let i = v.selected->Some_0 as int;
            let r = step_delete(v);
            &&& r.committed.len() == v.committed.len() - 1
            &&& forall|k: int| 0 <= k < i ==> r.committed[k] == v.committed[k]
            &&& forall|k: int| i <= k < r.committed.len() ==> r.committed[k] == v.committed[k + 1]
            &&& r.selected is None
        }),
{
}

proof fn lemma_first_endpoint_hit_at(s: Seq<Line>, p: Point, tolerance: int, skip: int, from: int, i: int)
    requires
        0 <= from <= i < s.len(),
        i != skip,
        nearest_endpoint_within(s[i], p, tolerance) is Some,
        forall|k: int| from <= k < i && k != skip ==> nearest_endpoint_within(#[trigger] s[k], p, tolerance) is None,
    ensures
        first_endpoint_hit(s, p, tolerance, skip, from) == nearest_endpoint_within(s[i], p, tolerance),
    decreases i - from,
{
    if from < i {
        lemma_first_endpoint_hit_at(s, p, tolerance, skip, from + 1, i);
    }
}

/// During a drag, when segments `i < j` both have an endpoint within snapping
/// distance of the pointer, the earlier one wins: the drag snaps to the endpoint
/// of the first such segment, here `i`.
pub proof fn lemma_snap_priority(v: DrawingView, pos: Point, i: int, j: int)
    requires
        v.wf(),
        pos.wf(),
        v.in_progress is Some,
        0 <= i < j < v.committed.len(),
        i != skip_index(v.selected),
        j != skip_index(v.selected),
        nearest_endpoint_within(v.committed[i], pos, SNAP_TOLERANCE as int) is Some,
        nearest_endpoint_within(v.committed[j], pos, SNAP_TOLERANCE as int) is Some,
        forall|k: int| 0 <= k < i && k != skip_index(v.selected)
            ==> nearest_endpoint_within(#[trigger] v.committed[k], pos, SNAP_TOLERANCE as int) is None,
    ensures
        step_move(v, pos).anchor == nearest_endpoint_within(v.committed[i], pos, SNAP_TOLERANCE as int),
        step_move(v, pos).in_progress == Some(Line {
            p0: v.in_progress->Some_0.p0,
            p1: nearest_endpoint_within(v.committed[i], pos, SNAP_TOLERANCE as int)->Some_0,
        }),
{
    lemma_first_endpoint_hit_at(v.committed, pos, SNAP_TOLERANCE as int, skip_index(v.selected), 0, i);
}

proof fn lemma_dist2_along(a: Point, b: Point, m: int, wx: int, wy: int)
    requires
        b.x - a.x == m * wx,
        b.y - a.y == m * wy,
    ensures
        dist2(a, b) == (m * m) * (wx * wx + wy * wy),
        dist2(b, a) == (m * m) * (wx * wx + wy * wy),
{
    assert((a.x - b.x) * (a.x - b.x) == (m * m) * (wx * wx)) by (nonlinear_arith)
        requires
            b.x - a.x == m * wx,
    ;
    assert((a.y - b.y) * (a.y - b.y) == (m * m) * (wy * wy)) by (nonlinear_arith)
        requires
            b.y - a.y == m * wy,
    ;
    assert((b.x - a.x) * (b.x - a.x) == (m * m) * (wx * wx)) by (nonlinear_arith)
        requires
            b.x - a.x == m * wx,
    ;
    assert((b.y - a.y) * (b.y - a.y) == (m * m) * (wy * wy)) by (nonlinear_arith)
        requires
            b.y - a.y == m * wy,
    ;
    assert((m * m) * (wx * wx) + (m * m) * (wy * wy) == (m * m) * (wx * wx + wy * wy)) by (nonlinear_arith);
}

/// A point on a segment lies on it for every positive tolerance. On the integer
/// grid the points of a segment are those reached from `s.p0` by `m` steps of some
/// vector `w` and from which `s.p1` is `n` more steps of `w`.
pub proof fn lemma_on_segment_lies_on_it(s: Line, p: Point, wx: int, wy: int, m: int, n: int, tolerance: int)
    requires
        s.wf(),
        p.wf(),
        0 <= m,
        0 <= n,
        p.x - s.p0.x == m * wx,
        p.y - s.p0.y == m * wy,
        s.p1.x - p.x == n * wx,
        s.p1.y - p.y == n * wy,
        tolerance > 0,
    ensures
        lies_on_segment(s, p, tolerance),
{
    let w = wx * wx + wy * wy;
    assert(w >= 0) by (nonlinear_arith)
        requires
            w == wx * wx + wy * wy,
    ;
    lemma_dist2_along(s.p0, p, m, wx, wy);
    lemma_dist2_along(p, s.p1, n, wx, wy);
    assert(s.p1.x - s.p0.x == (m + n) * wx) by (nonlinear_arith)
        requires
            p.x - s.p0.x == m * wx,
            s.p1.x - p.x == n * wx,
    ;
    assert(s.p1.y - s.p0.y == (m + n) * wy) by (nonlinear_arith)
        requires
            p.y - s.p0.y == m * wy,
            s.p1.y - p.y == n * wy,
    ;
    lemma_dist2_along(s.p0, s.p1, m + n, wx, wy);
    let a = (m * m) * w;
    let b = (n * n) * w;
    let c = ((m + n) * (m + n)) * w;
    let t = tolerance;
    let mn = m * n;
    assert(mn >= 0) by (nonlinear_arith)
        requires
            mn == m * n,
            m >= 0,
            n >= 0,
    ;
    assert(c - a - b == 2 * (mn * w)) by (nonlinear_arith)
        requires
            a == (m * m) * w,
            b == (n * n) * w,
            c == ((m + n) * (m + n)) * w,
            mn == m * n,
    ;
    let k = c + t * t - a - b;
    assert(k >= 0) by (nonlinear_arith)
        requires
            k == t * t + 2 * (mn * w),
            mn >= 0,
            w >= 0,
    ;
    let x = 4 * (a * b);
    let y = 4 * ((t * t) * c);
    assert(x == 4 * ((mn * w) * (mn * w))) by (nonlinear_arith)
        requires
            x == 4 * (a * b),
            a == (m * m) * w,
            b == (n * n) * w,
            mn == m * n,
    ;
    assert(y > 0 || c == 0) by (nonlinear_arith)
        requires
            y == 4 * ((t * t) * c),
            t > 0,
            c >= 0,
    ;
    assert(x - y - k * k < 0) by (nonlinear_arith)
        requires
            x == 4 * ((mn * w) * (mn * w)),
            k == t * t + 2 * (mn * w),
            y >= 0,
            mn * w >= 0,
            t > 0,
    ;
    assert(slack_below(a, b, c, t));
}

proof fn lemma_slack_not_below(a: int, b: int, c: int, t: int)
    requires
        0 <= t,
        0 <= c,
        t * t <= b,
        b + c <= a,
    ensures
        !slack_below(a, b, c, t),
        !slack_below(b, a, c, t),
{
    let k = c + t * t - a - b;
    let x = 4 * (a * b);
    let y = 4 * ((t * t) * c);
    assert(a * b == b * a) by (nonlinear_arith);
    assert(x >= 4 * (b * b) + 4 * (b * c)) by (nonlinear_arith)
        requires
            x == 4 * (a * b),
            b + c <= a,
            0 <= b,
    ;
    assert(y <= 4 * (b * c)) by (nonlinear_arith)
        requires
            y == 4 * ((t * t) * c),
            t * t <= b,
            0 <= c,
    ;
    assert(y - x <= 0) by (nonlinear_arith)
        requires
            x >= 4 * (b * b) + 4 * (b * c),
            y <= 4 * (b * c),
    ;
    assert(k <= 0);
    if k == 0 {
        assert(y == 0 || t * t > 0) by (nonlinear_arith)
            requires
                y == 4 * ((t * t) * c),
        ;
        assert(y == 0) by (nonlinear_arith)
            requires
                y == 4 * ((t * t) * c),
                k == 0,
                k == c + t * t - a - b,
                b + c <= a,
                t * t <= b,
        ;
        assert(x - y - k * k >= 0) by (nonlinear_arith)
            requires
                x == 4 * (a * b),
                y == 0,
                k == 0,
                0 <= b,
                0 <= a,
        ;
        assert(0 <= (x - y - k * k) * (x - y - k * k)) by (nonlinear_arith);
    } else {
        assert(y - x - (-k) * (-k) <= 0) by (nonlinear_arith)
            requires
                y - x <= 0,
        ;
    }
}

/// A point past an end of a segment, in the half-plane beyond that end, and at
/// least `tolerance` away from it, does not lie on the segment.
pub proof fn lemma_beyond_end_does_not_lie_on_it(s: Line, p: Point, tolerance: int)
    requires
        s.wf(),
        p.wf(),
        tolerance >= 0,
        ({
            ||| (p.x - s.p1.x) * (s.p1.x - s.p0.x) + (p.y - s.p1.y) * (s.p1.y - s.p0.y) >= 0
                && dist2(p, s.p1) >= tolerance * tolerance
            ||| (p.x - s.p0.x) * (s.p0.x - s.p1.x) + (p.y - s.p0.y) * (s.p0.y - s.p1.y) >= 0
                && dist2(s.p0, p) >= tolerance * tolerance
        }),
    ensures
        !lies_on_segment(s, p, tolerance),
{
    let a = dist2(s.p0, p);
    let b = dist2(p, s.p1);
    let c = dist2(s.p0, s.p1);
    let d1 = (p.x - s.p1.x) * (s.p1.x - s.p0.x) + (p.y - s.p1.y) * (s.p1.y - s.p0.y);
    let d0 = (p.x - s.p0.x) * (s.p0.x - s.p1.x) + (p.y - s.p0.y) * (s.p0.y - s.p1.y);
    assert(a == b + c + 2 * d1) by (nonlinear_arith)
        requires
            a == dist2(s.p0, p),
            b == dist2(p, s.p1),
            c == dist2(s.p0, s.p1),
            d1 == (p.x - s.p1.x) * (s.p1.x - s.p0.x) + (p.y - s.p1.y) * (s.p1.y - s.p0.y),
    ;
    assert(b == a + c + 2 * d0) by (nonlinear_arith)
        requires
            a == dist2(s.p0, p),
            b == dist2(p, s.p1),
            c == dist2(s.p0, s.p1),
            d0 == (p.x - s.p0.x) * (s.p0.x - s.p1.x) + (p.y - s.p0.y) * (s.p0.y - s.p1.y),
    ;
    assert(c >= 0 && a >= 0 && b >= 0) by (nonlinear_arith)
        requires
            a == dist2(s.p0, p),
            b == dist2(p, s.p1),
            c == dist2(s.p0, s.p1),
    ;
    if d1 >= 0 && b >= tolerance * tolerance {
        lemma_slack_not_below(a, b, c, tolerance);
    } else {
        lemma_slack_not_below(b, a, c, tolerance);
    }
}

} // verus!
