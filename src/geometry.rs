use vstd::prelude::*;

verus! {

/// Largest magnitude of a coordinate on the drawing surface.
pub const COORD_LIMIT: i32 = 8192;

/// Largest tolerance that the hit tests accept.
pub const TOLERANCE_LIMIT: i32 = 8192;

/// A point of the drawing surface, in whole pixels.
#[derive(Clone, Copy, Debug, PartialEq, Eq, Structural)]
pub struct Point {
    pub x: i32,
    pub y: i32,
}

/// A straight segment from `p0` to `p1`.
#[derive(Clone, Copy, Debug, PartialEq, Eq, Structural)]
pub struct Line {
    pub p0: Point,
    pub p1: Point,
}

pub open spec fn coord_ok(v: int) -> bool {
    -COORD_LIMIT <= v <= COORD_LIMIT
}

pub open spec fn clamp_coord(v: int) -> int {
    if v < -COORD_LIMIT {
        -COORD_LIMIT as int
    } else if v > COORD_LIMIT {
        COORD_LIMIT as int
    } else {
        v
    }
}

impl Point {
    /// The point lies on the drawing surface.
    pub open spec fn wf(self) -> bool {
        coord_ok(self.x as int) && coord_ok(self.y as int)
    }

    pub fn new(x: i32, y: i32) -> (r: Point)
        ensures
            r.x == x,
            r.y == y,
    {
        Point { x, y }
    }

    /// The point of the drawing surface nearest to `(x, y)`.
    pub fn clamped(x: i64, y: i64) -> (r: Point)
        ensures
            r.wf(),
            r.x == clamp_coord(x as int),
            r.y == clamp_coord(y as int),
    {
        Point { x: clamp_i64(x), y: clamp_i64(y) }
    }

    /// Square of the Euclidean distance to `other`.
    pub fn distance_squared(&self, other: &Point) -> (r: i64)
        requires
            self.wf(),
            other.wf(),
        ensures
            r == dist2(*self, *other),
            0 <= r <= 0x2000_0000,
    {
        let dx: i64 = self.x as i64 - other.x as i64;
        let dy: i64 = self.y as i64 - other.y as i64;
        proof {
            lemma_square_bound(dx as int, 0x4000);
            lemma_square_bound(dy as int, 0x4000);
        }
        dx * dx + dy * dy
    }
}

impl Line {
    pub open spec fn wf(self) -> bool {
        self.p0.wf() && self.p1.wf()
    }

    pub fn new(p0: Point, p1: Point) -> (r: Line)
        ensures
            r.p0 == p0,
            r.p1 == p1,
    {
        Line { p0, p1 }
    }
}

fn clamp_i64(v: i64) -> (r: i32)
    ensures
        r == clamp_coord(v as int),
{
    if v < -(COORD_LIMIT as i64) {
        -COORD_LIMIT
    } else if v > COORD_LIMIT as i64 {
        COORD_LIMIT
    } else {
        v as i32
    }
}

/// Square of the Euclidean distance between `a` and `b`. A distance is below a
/// tolerance `t >= 0` exactly when this square is below `t * t`.
pub open spec fn dist2(a: Point, b: Point) -> int {
    (a.x - b.x) * (a.x - b.x) + (a.y - b.y) * (a.y - b.y)
}

/// Exact integer form of `sqrt(a) + sqrt(b) < sqrt(c) + t` for `a, b, c, t >= 0`.
///
/// Both sides are non-negative, so squaring gives `sqrt(x) < k + sqrt(y)` with
/// `k = c + t*t - a - b`, `x = 4ab` and `y = 4t*t*c`. For `k >= 0` the right side is
/// non-negative and squaring once more leaves `m < 2k*sqrt(y)` with
/// `m = x - y - k*k`. For `k < 0` the inequality reads `sqrt(y) > j + sqrt(x)` with
/// `j = -k > 0`, which squares to `n > 2j*sqrt(x)` with `n = y - x - j*j`.
pub open spec fn slack_below(a: int, b: int, c: int, t: int) -> bool {
    let k = c + t * t - a - b;
    let x = 4 * (a * b);
    let y = 4 * ((t * t) * c);
    if k >= 0 {
        let m = x - y - k * k;
        m < 0 || m * m < (4 * (k * k)) * y
    } else {
        let j = -k;
        let n = y - x - j * j;
        n > 0 && n * n > (4 * (j * j)) * x
    }
}

/// `p` lies on `s` up to `tolerance`: the detour from `s.p0` through `p` to `s.p1`
/// is less than `tolerance` longer than `s` itself.
pub open spec fn lies_on_segment(s: Line, p: Point, tolerance: int) -> bool {
    slack_below(dist2(s.p0, p), dist2(p, s.p1), dist2(s.p0, s.p1), tolerance)
}

/// The endpoint of `s` closer to `p`; `s.p0` on a tie.
pub open spec fn nearest_endpoint(s: Line, p: Point) -> Point {
    if dist2(s.p0, p) <= dist2(s.p1, p) {
        s.p0
    } else {
        s.p1
    }
}

/// `s.p0` if it is within `tolerance` of `p`, else `s.p1` if that is, else nothing.
pub open spec fn nearest_endpoint_within(s: Line, p: Point, tolerance: int) -> Option<Point> {
    if dist2(s.p0, p) < tolerance * tolerance {
        Some(s.p0)
    } else if dist2(s.p1, p) < tolerance * tolerance {
        Some(s.p1)
    } else {
        None
    }
}

proof fn lemma_square_bound(v: int, b: int)
    requires
        -b <= v <= b,
    ensures
        0 <= v * v <= b * b,
{
    assert(0 <= v * v <= b * b) by (nonlinear_arith)
        requires
            -b <= v <= b,
    ;
}

proof fn lemma_mul_bound(u: int, v: int, bu: int, bv: int)
    requires
        0 <= u <= bu,
        0 <= v <= bv,
    ensures
        0 <= u * v <= bu * bv,
{
    assert(0 <= u * v <= bu * bv) by (nonlinear_arith)
        requires
            0 <= u <= bu,
            0 <= v <= bv,
    ;
}

/// Decides `slack_below` without overflow.
fn slack_below_exec(a: i64, b: i64, c: i64, t: i64) -> (r: bool)
    requires
        0 <= a <= 0x2000_0000,
        0 <= b <= 0x2000_0000,
        0 <= c <= 0x2000_0000,
        0 <= t <= 0x2000,
    ensures
        r == slack_below(a as int, b as int, c as int, t as int),
{
    let a: i128 = a as i128;
    let b: i128 = b as i128;
    let c: i128 = c as i128;
    let t: i128 = t as i128;
    proof {
        lemma_mul_bound(t as int, t as int, 0x2000, 0x2000);
        lemma_mul_bound(a as int, b as int, 0x2000_0000, 0x2000_0000);
    }
    let tt: i128 = t * t;
    proof {
        lemma_mul_bound(tt as int, c as int, 0x400_0000, 0x2000_0000);
    }
    let k: i128 = c + tt - a - b;
    let x: i128 = 4 * (a * b);
    let y: i128 = 4 * (tt * c);
    if k >= 0 {
        proof {
            lemma_mul_bound(k as int, k as int, 0x4000_0000, 0x4000_0000);
        }
        let kk: i128 = k * k;
        let m: i128 = x - y - kk;
        if m < 0 {
            true
        } else {
            proof {
                lemma_mul_bound(m as int, m as int, 0x2000_0000_0000_0000, 0x2000_0000_0000_0000);
                lemma_mul_bound(4 * kk as int, y as int, 0x4000_0000_0000_0000, 0x200_0000_0000_0000);
            }
            m * m < (4 * kk) * y
        }
    } else {
        let j: i128 = -k;
        proof {
            lemma_mul_bound(j as int, j as int, 0x4000_0000, 0x4000_0000);
        }
        let jj: i128 = j * j;
        let n: i128 = y - x - jj;
        if n <= 0 {
            false
        } else {
            proof {
                lemma_mul_bound(n as int, n as int, 0x200_0000_0000_0000, 0x200_0000_0000_0000);
                lemma_mul_bound(4 * jj as int, x as int, 0x4000_0000_0000_0000, 0x1000_0000_0000_0000);
            }
            n * n > (4 * jj) * x
        }
    }
}

/// Whether `point` lies on `line` up to `tolerance`.
pub fn line_contains_point(line: &Line, point: Point, tolerance: i32) -> (r: bool)
    requires
        line.wf(),
        point.wf(),
        0 <= tolerance <= TOLERANCE_LIMIT,
    ensures
        r == lies_on_segment(*line, point, tolerance as int),
{
    let a = line.p0.distance_squared(&point);
    let b = point.distance_squared(&line.p1);
    let c = line.p0.distance_squared(&line.p1);
    slack_below_exec(a, b, c, tolerance as i64)
}

/// The endpoint of `line` nearest to `point`.
pub fn closest_point(line: &Line, point: Point) -> (r: Point)
    requires
        line.wf(),
        point.wf(),
    ensures
        r == nearest_endpoint(*line, point),
{
    if line.p0.distance_squared(&point) <= line.p1.distance_squared(&point) {
        line.p0
    } else {
        line.p1
    }
}

/// The first endpoint of `line`, start before end, within `tolerance` of `point`.
pub fn closest_point_if_near(line: &Line, point: Point, tolerance: i32) -> (r: Option<Point>)
    requires
        line.wf(),
        point.wf(),
        0 <= tolerance <= TOLERANCE_LIMIT,
    ensures
        r == nearest_endpoint_within(*line, point, tolerance as int),
{
    let t: i64 = tolerance as i64;
    proof {
        lemma_mul_bound(t as int, t as int, 0x2000, 0x2000);
    }
    let tt: i64 = t * t;
    if line.p0.distance_squared(&point) < tt {
        Some(line.p0)
    } else if line.p1.distance_squared(&point) < tt {
        Some(line.p1)
    } else {
        None
    }
}

} // verus!
