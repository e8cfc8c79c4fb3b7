//! Exact integer geometry: segments, circles and simple polygons.
//!
//! Every predicate here is decided exactly, with products taken in `i128`.
//! Inputs are required to lie within `GEO_LIMIT`, which keeps all the
//! intermediate products inside `i128`; the simulation keeps every world
//! coordinate within the tighter `POS_LIMIT`, so the requirement is met
//! everywhere.

use vstd::prelude::*;

use crate::fixed::{
    isqrt128, isqrt_spec, lemma_abs_mul_bound, mul_i128, sat64, sat_spec, tdiv128, tdiv_spec,
    SCALE,
};
use crate::vec2::{unit_x_of, unit_y_of, Vec2};

verus! {

/// Bound on any coordinate handed to the geometry predicates.
pub const GEO_LIMIT: i64 = 0x4000_0000;

/// Bound on any circle radius handed to the geometry predicates.
pub const RADIUS_LIMIT: i64 = 0x10_0000;

pub open spec fn bounded(v: Vec2, b: int) -> bool {
    -b <= v.x <= b && -b <= v.y <= b
}

#[derive(Clone, Copy, PartialEq, Eq, Structural, Debug)]
pub struct Segment2 {
    pub p1: Vec2,
    pub p2: Vec2,
}

pub open spec fn seg_bounded(s: Segment2, b: int) -> bool {
    bounded(s.p1, b) && bounded(s.p2, b)
}

/// Twice the signed area of the triangle `p q r`: positive when `r` lies to
/// the left of the directed line from `p` to `q`.
pub open spec fn orient_spec(p: Vec2, q: Vec2, r: Vec2) -> int {
    (q.x - p.x) * (r.y - p.y) - (q.y - p.y) * (r.x - p.x)
}

/// For `r` collinear with `p` and `q`: does `r` lie within the bounding box
/// of `p` and `q`?
pub open spec fn within_box_spec(p: Vec2, q: Vec2, r: Vec2) -> bool {
    (if p.x <= q.x {
        p.x <= r.x <= q.x
    } else {
        q.x <= r.x <= p.x
    }) && (if p.y <= q.y {
        p.y <= r.y <= q.y
    } else {
        q.y <= r.y <= p.y
    })
}

/// The two closed segments share at least one point: the classical
/// orientation test, with the collinear cases handled by bounding boxes.
pub open spec fn segs_intersect_spec(a: Segment2, b: Segment2) -> bool {
    let d1 = orient_spec(b.p1, b.p2, a.p1);
    let d2 = orient_spec(b.p1, b.p2, a.p2);
    let d3 = orient_spec(a.p1, a.p2, b.p1);
    let d4 = orient_spec(a.p1, a.p2, b.p2);
    if ((d1 > 0 && d2 < 0) || (d1 < 0 && d2 > 0)) && ((d3 > 0 && d4 < 0) || (d3 < 0 && d4
        > 0)) {
        true
    } else if d1 == 0 && within_box_spec(b.p1, b.p2, a.p1) {
        true
    } else if d2 == 0 && within_box_spec(b.p1, b.p2, a.p2) {
        true
    } else if d3 == 0 && within_box_spec(a.p1, a.p2, b.p1) {
        true
    } else if d4 == 0 && within_box_spec(a.p1, a.p2, b.p2) {
        true
    } else {
        false
    }
}

/// Exact orientation of `r` against the directed line `p -> q`.
pub fn orient(p: Vec2, q: Vec2, r: Vec2) -> (o: i128)
    requires
        bounded(p, GEO_LIMIT as int),
        bounded(q, GEO_LIMIT as int),
        bounded(r, GEO_LIMIT as int),
    ensures
        o == orient_spec(p, q, r),
{
    let dq = q.minus(p);
    let dr = r.minus(p);
    dq.cross(dr)
}

fn within_box(p: Vec2, q: Vec2, r: Vec2) -> (w: bool)
    ensures
        w == within_box_spec(p, q, r),
{
    let okx = if p.x <= q.x {
        p.x <= r.x && r.x <= q.x
    } else {
        q.x <= r.x && r.x <= p.x
    };
    let oky = if p.y <= q.y {
        p.y <= r.y && r.y <= q.y
    } else {
        q.y <= r.y && r.y <= p.y
    };
    okx && oky
}

/// Exact closed-segment intersection test.
pub fn segs_intersect(a: Segment2, b: Segment2) -> (r: bool)
    requires
        seg_bounded(a, GEO_LIMIT as int),
        seg_bounded(b, GEO_LIMIT as int),
    ensures
        r == segs_intersect_spec(a, b),
{
    let d1 = orient(b.p1, b.p2, a.p1);
    let d2 = orient(b.p1, b.p2, a.p2);
    let d3 = orient(a.p1, a.p2, b.p1);
    let d4 = orient(a.p1, a.p2, b.p2);
    if ((d1 > 0 && d2 < 0) || (d1 < 0 && d2 > 0)) && ((d3 > 0 && d4 < 0) || (d3 < 0 && d4
        > 0)) {
        true
    } else if d1 == 0 && within_box(b.p1, b.p2, a.p1) {
        true
    } else if d2 == 0 && within_box(b.p1, b.p2, a.p2) {
        true
    } else if d3 == 0 && within_box(a.p1, a.p2, b.p1) {
        true
    } else if d4 == 0 && within_box(a.p1, a.p2, b.p2) {
        true
    } else {
        false
    }
}

/// The closed segment comes within `radius` of `center`: decided exactly by
/// comparing squared distances, with the perpendicular case put in the
/// cross-multiplied form `cross^2 <= radius^2 * |d|^2`.
pub open spec fn seg_circle_hit_spec(s: Segment2, center: Vec2, radius: int) -> bool {
    let dx = s.p2.x - s.p1.x;
    let dy = s.p2.y - s.p1.y;
    let ax = center.x - s.p1.x;
    let ay = center.y - s.p1.y;
    let dd = dx * dx + dy * dy;
    let dt = ax * dx + ay * dy;
    if dt <= 0 {
        ax * ax + ay * ay <= radius * radius
    } else if dt >= dd {
        let bx = center.x - s.p2.x;
        let by = center.y - s.p2.y;
        bx * bx + by * by <= radius * radius
    } else {
        let cr = dx * ay - dy * ax;
        cr * cr <= radius * radius * dd
    }
}

/// Exact segment-against-circle overlap test.
pub fn seg_circle_hit(s: Segment2, center: Vec2, radius: i64) -> (r: bool)
    requires
        seg_bounded(s, GEO_LIMIT as int),
        bounded(center, GEO_LIMIT as int),
        0 <= radius <= RADIUS_LIMIT,
    ensures
        r == seg_circle_hit_spec(s, center, radius as int),
{
    let d = s.p2.minus(s.p1);
    let a = center.minus(s.p1);
    let dd = d.len_sq();
    let dt = a.dot(d);
    proof {
        lemma_abs_mul_bound(radius as int, radius as int, 0x10_0000, 0x10_0000);
        assert(0x10_0000int * 0x10_0000int == 0x100_0000_0000);
    }
    let rr = mul_i128(radius as i128, radius as i128);
    if dt <= 0 {
        a.len_sq() <= rr
    } else if dt >= dd {
        let b = center.minus(s.p2);
        b.len_sq() <= rr
    } else {
        let cr = d.cross(a);
        proof {
            lemma_abs_mul_bound(s.p2.x - s.p1.x, center.y - s.p1.y, 0x8000_0000, 0x8000_0000);
            lemma_abs_mul_bound(s.p2.y - s.p1.y, center.x - s.p1.x, 0x8000_0000, 0x8000_0000);
            lemma_abs_mul_bound(s.p2.x - s.p1.x, s.p2.x - s.p1.x, 0x8000_0000, 0x8000_0000);
            lemma_abs_mul_bound(s.p2.y - s.p1.y, s.p2.y - s.p1.y, 0x8000_0000, 0x8000_0000);
            assert(0x8000_0000int * 0x8000_0000int == 0x4000_0000_0000_0000);
        }
        mul_i128(cr, cr) <= mul_i128(rr, dd)
    }
}

/// The earliest crossing of a moving point into a circle, as a fixed-point
/// fraction of the segment, `0 < t <= SCALE`; `None` when the line never
/// meets the circle within the segment, or the segment is a single point.
///
/// For `p(t) = p1 + (t/SCALE)*(p2 - p1)` the squared distance to the center
/// equals `radius^2` where `a*t^2 - 2*b*t + e == 0` (over real `t`, with
/// `a = |d|^2`, `b = d . (center - p1)`, `e = |center - p1|^2 - radius^2`);
/// the roots are `(b -/+ sqrt(b^2 - a*e)) / a`. The square root is taken as
/// the integer square root and the quotient truncates, so the returned time
/// is the floor of the exact crossing time in fixed-point units.
pub open spec fn seg_circle_time_spec(s: Segment2, center: Vec2, radius: int) -> Option<
    int,
> {
    let dx = s.p2.x - s.p1.x;
    let dy = s.p2.y - s.p1.y;
    let ax = center.x - s.p1.x;
    let ay = center.y - s.p1.y;
    let a = dx * dx + dy * dy;
    let b = dx * ax + dy * ay;
    let e = ax * ax + ay * ay - radius * radius;
    let disc = b * b - a * e;
    if a == 0 || disc < 0 {
        Option::None
    } else {
        let root = isqrt_spec(disc);
        let t1 = tdiv_spec((b - root) * SCALE, a);
        let t2 = tdiv_spec((b + root) * SCALE, a);
        if t1 > 0 && t1 <= SCALE {
            Option::Some(t1)
        } else if t2 > 0 && t2 <= SCALE {
            Option::Some(t2)
        } else {
            Option::None
        }
    }
}

/// Exact earliest positive intersection time of a segment with a circle.
pub fn seg_circle_time(s: Segment2, center: Vec2, radius: i64) -> (r: Option<i64>)
    requires
        seg_bounded(s, GEO_LIMIT as int),
        bounded(center, GEO_LIMIT as int),
        0 <= radius <= RADIUS_LIMIT,
    ensures
        r is Some <==> seg_circle_time_spec(s, center, radius as int) is Some,
        r is Some ==> r->0 as int == seg_circle_time_spec(s, center, radius as int)->0,
        r is Some ==> 0 < r->0 <= SCALE,
{
    let d = s.p2.minus(s.p1);
    let ac = center.minus(s.p1);
    let a = d.len_sq();
    let b = d.dot(ac);
    proof {
        lemma_abs_mul_bound(radius as int, radius as int, 0x10_0000, 0x10_0000);
        assert(0x10_0000int * 0x10_0000int == 0x100_0000_0000);
    }
    let rr = mul_i128(radius as i128, radius as i128);
    let e = ac.len_sq() - rr;
    proof {
        lemma_abs_mul_bound(s.p2.x - s.p1.x, center.x - s.p1.x, 0x8000_0000, 0x8000_0000);
        lemma_abs_mul_bound(s.p2.y - s.p1.y, center.y - s.p1.y, 0x8000_0000, 0x8000_0000);
        lemma_abs_mul_bound(s.p2.x - s.p1.x, s.p2.x - s.p1.x, 0x8000_0000, 0x8000_0000);
        lemma_abs_mul_bound(s.p2.y - s.p1.y, s.p2.y - s.p1.y, 0x8000_0000, 0x8000_0000);
        lemma_abs_mul_bound(center.x - s.p1.x, center.x - s.p1.x, 0x8000_0000, 0x8000_0000);
        lemma_abs_mul_bound(center.y - s.p1.y, center.y - s.p1.y, 0x8000_0000, 0x8000_0000);
        assert(0x8000_0000int * 0x8000_0000int == 0x4000_0000_0000_0000);
    }
    let bb = mul_i128(b, b);
    proof {
        // `a * e` is never far below zero: `a >= 0` and `e >= -radius^2`.
        crate::fixed::lemma_mul_lower(a as int, e as int, 0x8000_0000_0000_0000,
            0x100_0000_0000);
        assert(0x8000_0000_0000_0000int * 0x100_0000_0000int
            == 0x80_0000_0000_0000_0000_0000_0000);
    }
    let ae = mul_i128(a, e);
    let disc = bb - ae;
    if a == 0 || disc < 0 {
        None
    } else {
        let root = isqrt128(disc);
        proof {
            assert(root <= 0x2_0000_0000_0000_0000) by (nonlinear_arith)
                requires
                    root >= 0,
                    root * root <= disc,
                    disc <= 0x8000_0000_0000_0000_0000_0000_0000_0000,
            ;
            lemma_abs_mul_bound(b - root, SCALE as int, 0x4_0000_0000_0000_0000,
                0x1_0000);
            lemma_abs_mul_bound(b + root, SCALE as int, 0x4_0000_0000_0000_0000,
                0x1_0000);
            assert(0x4_0000_0000_0000_0000int * 0x1_0000int == 0x4_0000_0000_0000_0000_0000);
        }
        let t1 = tdiv128((b - root) * (SCALE as i128), a);
        let t2 = tdiv128((b + root) * (SCALE as i128), a);
        if t1 > 0 && t1 <= SCALE as i128 {
            Some(sat64(t1))
        } else if t2 > 0 && t2 <= SCALE as i128 {
            Some(sat64(t2))
        } else {
            None
        }
    }
}

/// Squared distance from a point to a closed segment, truncated: the squared
/// distance to the nearer endpoint when the perpendicular foot falls outside
/// the segment, else `cross^2 / |d|^2` rounded toward zero.
pub open spec fn seg_dist_sq_spec(s: Segment2, p: Vec2) -> int {
    let dx = s.p2.x - s.p1.x;
    let dy = s.p2.y - s.p1.y;
    let ax = p.x - s.p1.x;
    let ay = p.y - s.p1.y;
    let dd = dx * dx + dy * dy;
    let dt = ax * dx + ay * dy;
    if dt <= 0 {
        ax * ax + ay * ay
    } else if dt >= dd {
        let bx = p.x - s.p2.x;
        let by = p.y - s.p2.y;
        bx * bx + by * by
    } else {
        let cr = dx * ay - dy * ax;
        tdiv_spec(cr * cr, dd)
    }
}

/// Exact truncated squared distance from `p` to the segment.
pub fn seg_dist_sq(s: Segment2, p: Vec2) -> (r: i128)
    requires
        seg_bounded(s, GEO_LIMIT as int),
        bounded(p, GEO_LIMIT as int),
    ensures
        r == seg_dist_sq_spec(s, p),
        r >= 0,
{
    let d = s.p2.minus(s.p1);
    let a = p.minus(s.p1);
    let dd = d.len_sq();
    let dt = a.dot(d);
    if dt <= 0 {
        a.len_sq()
    } else if dt >= dd {
        p.minus(s.p2).len_sq()
    } else {
        let cr = d.cross(a);
        proof {
            lemma_abs_mul_bound(s.p2.x - s.p1.x, p.y - s.p1.y, 0x8000_0000, 0x8000_0000);
            lemma_abs_mul_bound(s.p2.y - s.p1.y, p.x - s.p1.x, 0x8000_0000, 0x8000_0000);
            assert(0x8000_0000int * 0x8000_0000int == 0x4000_0000_0000_0000);
            crate::fixed::lemma_square_nonneg(cr as int);
        }
        let num = mul_i128(cr, cr);
        tdiv128(num, dd)
    }
}

/// One edge of a horizontal ray test: does the edge from `a` to `b` cross
/// the horizontal ray running from `p` toward positive x? Stated with the
/// division cross-multiplied away, so it is exact over the integers.
pub open spec fn crosses_spec(a: Vec2, b: Vec2, p: Vec2) -> bool {
    ((a.y > p.y) != (b.y > p.y)) && (if b.y > a.y {
        (p.x - a.x) * (b.y - a.y) - (b.x - a.x) * (p.y - a.y) < 0
    } else {
        (p.x - a.x) * (b.y - a.y) - (b.x - a.x) * (p.y - a.y) > 0
    })
}

fn crosses(a: Vec2, b: Vec2, p: Vec2) -> (r: bool)
    requires
        bounded(a, GEO_LIMIT as int),
        bounded(b, GEO_LIMIT as int),
        bounded(p, GEO_LIMIT as int),
    ensures
        r == crosses_spec(a, b, p),
{
    if (a.y > p.y) != (b.y > p.y) {
        let da = p.minus(a);
        let db = b.minus(a);
        let cr = da.cross(db);
        if b.y > a.y {
            cr < 0
        } else {
            cr > 0
        }
    } else {
        false
    }
}

/// Bound on world positions kept by the simulation: comfortably inside
/// `GEO_LIMIT`, so every geometric query's precondition is met.
pub const POS_LIMIT: i64 = 0x1000_0000;

/// The index after `k` in a ring of `n` vertices.
pub open spec fn next_idx(n: int, k: int) -> int {
    if k + 1 == n {
        0int
    } else {
        k + 1
    }
}

/// The outward normal direction of edge `k` of a vertex ring, before
/// normalization: the edge direction turned right (for counterclockwise
/// vertex order).
pub open spec fn poly_perp_x(verts: Seq<Vec2>, k: int) -> int {
    verts[next_idx(verts.len() as int, k)].y - verts[k].y
}

pub open spec fn poly_perp_y(verts: Seq<Vec2>, k: int) -> int {
    -(verts[next_idx(verts.len() as int, k)].x - verts[k].x)
}

/// An immutable simple polygon with one outward unit normal per edge.
pub struct Building {
    pub verts: Vec<Vec2>,
    pub normals: Vec<Vec2>,
}

impl Building {
    /// Edge `i` runs from vertex `i` to vertex `i + 1`, wrapping around.
    pub open spec fn edge(self, i: int) -> Segment2 {
        Segment2 {
            p1: self.verts@[i],
            p2: self.verts@[next_idx(self.verts@.len() as int, i)],
        }
    }

    pub open spec fn wf(self) -> bool {
        &&& 3 <= self.verts@.len()
        &&& self.normals@.len() == self.verts@.len()
        &&& forall|i: int|
            0 <= i < self.verts@.len() ==> bounded(#[trigger] self.verts@[i], POS_LIMIT as int)
        &&& forall|i: int|
            0 <= i < self.normals@.len() ==> (#[trigger] self.normals@[i]).x == unit_x_of(
                poly_perp_x(self.verts@, i),
                poly_perp_y(self.verts@, i),
            ) && self.normals@[i].y == unit_y_of(
                poly_perp_x(self.verts@, i),
                poly_perp_y(self.verts@, i),
            )
        &&& forall|i: int|
            0 <= i < self.normals@.len() ==> -SCALE <= (#[trigger] self.normals@[i]).x <= SCALE
                && -SCALE <= self.normals@[i].y <= SCALE
    }

    /// Number of crossings of the horizontal ray from `p` with the first `i`
    /// edges of the polygon.
    pub open spec fn crossings(self, p: Vec2, i: int) -> int
        decreases i,
    {
        if i <= 0 {
            0
        } else {
            self.crossings(p, i - 1) + if crosses_spec(self.edge(i - 1).p1, self.edge(i - 1).p2, p) {
                1int
            } else {
                0int
            }
        }
    }

    /// Ray-casting containment: `p` is inside when the ray crosses the
    /// boundary an odd number of times.
    pub open spec fn contains_spec(self, p: Vec2) -> bool {
        self.crossings(p, self.verts@.len() as int) % 2 == 1
    }

    pub fn contains_point(&self, p: Vec2) -> (r: bool)
        requires
            self.wf(),
            bounded(p, GEO_LIMIT as int),
        ensures
            r == self.contains_spec(p),
    {
        let n = self.verts.len();
        let mut count: usize = 0;
        let mut i: usize = 0;
        while i < n
            invariant
                self.wf(),
                bounded(p, GEO_LIMIT as int),
                n == self.verts@.len(),
                0 <= i <= n,
                count <= i,
                count == self.crossings(p, i as int),
            decreases n - i,
        {
            let j = if i + 1 == n {
                0
            } else {
                i + 1
            };
            if crosses(self.verts[i], self.verts[j], p) {
                count = count + 1;
            }
            i = i + 1;
        }
        count % 2 == 1
    }

    /// Does any edge of this polygon meet the segment?
    pub open spec fn crossed_spec(self, s: Segment2) -> bool {
        exists|i: int|
            0 <= i < self.verts@.len() && #[trigger] segs_intersect_spec(self.edge(i), s)
    }

    pub fn crossed_by(&self, s: Segment2) -> (r: bool)
        requires
            self.wf(),
            seg_bounded(s, GEO_LIMIT as int),
        ensures
            r == self.crossed_spec(s),
    {
        let n = self.verts.len();
        let mut i: usize = 0;
        while i < n
            invariant
                self.wf(),
                seg_bounded(s, GEO_LIMIT as int),
                n == self.verts@.len(),
                0 <= i <= n,
                forall|j: int| 0 <= j < i ==> !#[trigger] segs_intersect_spec(self.edge(j), s),
            decreases n - i,
        {
            let j = if i + 1 == n {
                0
            } else {
                i + 1
            };
            let e = Segment2 { p1: self.verts[i], p2: self.verts[j] };
            if segs_intersect(e, s) {
                assert(e == self.edge(i as int));
                assert(segs_intersect_spec(self.edge(i as int), s));
                return true;
            }
            i = i + 1;
        }
        false
    }

    /// Index of the edge nearest to `p` among the first `i` edges, keeping
    /// the first of equally near edges.
    pub open spec fn nearest_edge(self, p: Vec2, i: int) -> int
        decreases i,
    {
        if i <= 1 {
            0
        } else {
            let prev = self.nearest_edge(p, i - 1);
            if seg_dist_sq_spec(self.edge(i - 1), p) < seg_dist_sq_spec(self.edge(prev), p) {
                i - 1
            } else {
                prev
            }
        }
    }

    /// Find the nearest edge to `p`; returns its index, its truncated squared
    /// distance and its outward unit normal.
    pub fn closest_edge(&self, p: Vec2) -> (r: (usize, i128, Vec2))
        requires
            self.wf(),
            bounded(p, GEO_LIMIT as int),
        ensures
            r.0 as int == self.nearest_edge(p, self.verts@.len() as int),
            0 <= r.0 < self.verts@.len(),
            r.1 == seg_dist_sq_spec(self.edge(r.0 as int), p),
            r.1 >= 0,
            r.2 == self.normals@[r.0 as int],
    {
        let n = self.verts.len();
        let e0 = Segment2 { p1: self.verts[0], p2: self.verts[1] };
        let mut best: usize = 0;
        let mut best_d: i128 = seg_dist_sq(e0, p);
        let mut i: usize = 1;
        while i < n
            invariant
                self.wf(),
                bounded(p, GEO_LIMIT as int),
                n == self.verts@.len(),
                1 <= i <= n,
                0 <= best < i,
                best as int == self.nearest_edge(p, i as int),
                best_d == seg_dist_sq_spec(self.edge(best as int), p),
                best_d >= 0,
            decreases n - i,
        {
            let j = if i + 1 == n {
                0
            } else {
                i + 1
            };
            let e = Segment2 { p1: self.verts[i], p2: self.verts[j] };
            let d = seg_dist_sq(e, p);
            if d < best_d {
                best = i;
                best_d = d;
            }
            i = i + 1;
        }
        (best, best_d, self.normals[best])
    }

    /// Build a polygon from its vertices, computing one outward unit normal
    /// per edge.
    pub fn new(verts: Vec<Vec2>) -> (r: Building)
        requires
            3 <= verts@.len(),
            forall|i: int| 0 <= i < verts@.len() ==> bounded(#[trigger] verts@[i], POS_LIMIT as int),
        ensures
            r.wf(),
            r.verts@ == verts@,
    {
        let n = verts.len();
        let mut normals: Vec<Vec2> = Vec::new();
        let mut i: usize = 0;
        while i < n
            invariant
                n == verts@.len(),
                3 <= n,
                forall|k: int| 0 <= k < n ==> bounded(#[trigger] verts@[k], POS_LIMIT as int),
                0 <= i <= n,
                normals@.len() == i,
                forall|k: int|
                    0 <= k < i ==> (#[trigger] normals@[k]).x == unit_x_of(
                        poly_perp_x(verts@, k),
                        poly_perp_y(verts@, k),
                    ) && normals@[k].y == unit_y_of(
                        poly_perp_x(verts@, k),
                        poly_perp_y(verts@, k),
                    ),
                forall|k: int|
                    0 <= k < i ==> -SCALE <= (#[trigger] normals@[k]).x <= SCALE && -SCALE
                        <= normals@[k].y <= SCALE,
            decreases n - i,
        {
            let j = if i + 1 == n {
                0
            } else {
                i + 1
            };
            let dir = verts[j].minus(verts[i]);
            let normal = dir.right().unit();
            normals.push(normal);
            i = i + 1;
        }
        Building { verts, normals }
    }
}

/// Clear line of sight: the segment from `from` to `to` meets no edge of any
/// building.
pub open spec fn can_see_spec(buildings: Seq<Building>, from: Vec2, to: Vec2) -> bool {
    forall|i: int|
        0 <= i < buildings.len() ==> !(#[trigger] buildings[i]).crossed_spec(
            Segment2 { p1: from, p2: to },
        )
}

/// Line-of-sight query over every building.
pub fn can_see(buildings: &Vec<Building>, from: Vec2, to: Vec2) -> (r: bool)
    requires
        forall|i: int| 0 <= i < buildings@.len() ==> (#[trigger] buildings@[i]).wf(),
        bounded(from, GEO_LIMIT as int),
        bounded(to, GEO_LIMIT as int),
    ensures
        r == can_see_spec(buildings@, from, to),
{
    let s = Segment2 { p1: from, p2: to };
    let n = buildings.len();
    let mut i: usize = 0;
    while i < n
        invariant
            forall|k: int| 0 <= k < buildings@.len() ==> (#[trigger] buildings@[k]).wf(),
            bounded(from, GEO_LIMIT as int),
            bounded(to, GEO_LIMIT as int),
            n == buildings@.len(),
            0 <= i <= n,
            s == (Segment2 { p1: from, p2: to }),
            forall|k: int| 0 <= k < i ==> !(#[trigger] buildings@[k]).crossed_spec(s),
        decreases n - i,
    {
        if buildings[i].crossed_by(s) {
            return false;
        }
        i = i + 1;
    }
    true
}

} // verus!
