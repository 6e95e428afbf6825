//! Closed polygons for penetration queries.
//!
//! A polygon is an ordered ring of points; beside each point the inverse
//! length of the segment it starts is cached, and the whole ring carries
//! a bounding box.  The ring is rebuilt from fresh particle positions
//! every physics sub-step.

use vstd::prelude::*;

verus! {

use crate::bounding_box::{corner_bounds, AxisAlignedBoundingBox};
use crate::random::RandomSource;
use crate::scalar::{fadd, fdiv, fmul, fsub, sc, Scalar};
use crate::vec2::{fdot, fmag, V2};

/// A ring point together with the inverse length of its outgoing segment.
#[derive(Clone, Copy, PartialEq, Eq, Structural, Debug)]
pub struct SegmentPoint {
    pub point: V2,
    pub inv_length: Scalar,
}

/// A closed ring of points with cached segment data and bounding box.
pub struct ClosedPolygon {
    pub segments: Vec<SegmentPoint>,
    pub bounding_box: AxisAlignedBoundingBox,
}

/// The eligible segment closest to a query point.
#[derive(Clone, Copy, PartialEq, Eq, Structural, Debug)]
pub struct ClosestSegment {
    pub index1: usize,
    pub index2: usize,
    pub point1: V2,
    pub point2: V2,
    pub depth: Scalar,
    pub ratio: Scalar,
}

/// Inverse length of the segment from `a` to `b`; zero for a degenerate
/// segment.
pub open spec fn seg_inv_len(a: V2, b: V2) -> int {
    let m = fmag(fsub(b.x.raw as int, a.x.raw as int), fsub(b.y.raw as int, a.y.raw as int));
    if m == 0 {
        0
    } else {
        fdiv(sc(), m)
    }
}

/// Whether the rightward horizontal ray from `p` crosses the edge `a`-`b`.
pub open spec fn edge_crosses(a: V2, b: V2, p: V2) -> bool {
    ((p.y.raw < a.y.raw) != (p.y.raw < b.y.raw)) && (p.x.raw as int) < fadd(
        a.x.raw as int,
        fmul(
            fdiv(
                fsub(p.y.raw as int, a.y.raw as int),
                fsub(b.y.raw as int, a.y.raw as int),
            ),
            fsub(b.x.raw as int, a.x.raw as int),
        ),
    )
}

/// Number of ray crossings over the first `k` edges of the ring.
pub open spec fn crossings(pts: Seq<V2>, p: V2, k: nat) -> nat
    decreases k,
{
    if k == 0 {
        0
    } else {
        crossings(pts, p, (k - 1) as nat) + if edge_crosses(
            pts[k - 1],
            pts[(k as int) % (pts.len() as int)],
            p,
        ) {
            1nat
        } else {
            0nat
        }
    }
}

/// The ray-cast parity test: a point is inside when the rightward ray
/// crosses the ring an odd number of times.
pub open spec fn point_inside(pts: Seq<V2>, p: V2) -> bool {
    crossings(pts, p, pts.len()) % 2 == 1
}

/// The projection ratio of `p` onto the segment starting at `a`, scaled
/// by the segment's cached inverse length.
pub open spec fn seg_ratio(a: V2, b: V2, inv: int, p: V2) -> int {
    fmul(
        fdot(
            fsub(p.x.raw as int, a.x.raw as int),
            fsub(p.y.raw as int, a.y.raw as int),
            fsub(b.x.raw as int, a.x.raw as int),
            fsub(b.y.raw as int, a.y.raw as int),
        ),
        fmul(inv, inv),
    )
}

/// The signed perpendicular distance of `p` from the segment's line.
pub open spec fn seg_depth(a: V2, b: V2, inv: int, p: V2) -> int {
    fmul(
        fsub(
            fmul(fsub(b.x.raw as int, a.x.raw as int), fsub(a.y.raw as int, p.y.raw as int)),
            fmul(fsub(a.x.raw as int, p.x.raw as int), fsub(b.y.raw as int, a.y.raw as int)),
        ),
        inv,
    )
}

impl ClosedPolygon {
    /// The ring points, in order.
    pub open spec fn points_seq(self) -> Seq<V2> {
        self.segments@.map(|i: int, s: SegmentPoint| s.point)
    }

    /// The cached data is consistent: each inverse length belongs to its
    /// segment and the bounding box spans exactly the ring points.
    pub open spec fn wf(self) -> bool {
        let n = self.segments@.len() as int;
        &&& forall|i: int|
            0 <= i < n ==> (#[trigger] self.segments@[i]).inv_length.raw == seg_inv_len(
                self.segments@[i].point,
                self.segments@[(i + 1) % n].point,
            )
        &&& if n > 0 {
            let (mnx, mny, mxx, mxy) = corner_bounds(self.points_seq(), n as nat);
            self.bounding_box == AxisAlignedBoundingBox::spec_from_min_max(mnx, mny, mxx, mxy)
        } else {
            self.bounding_box == AxisAlignedBoundingBox::spec_from_min_max(0, 0, 0, 0)
        }
    }

    /// Whether the edge starting at ring position `i` is an eligible
    /// closest-segment candidate for query point `p`: one endpoint lies
    /// inside the probe box and the projection ratio lies in `[0, 1]`.
    pub open spec fn edge_eligible(
        self,
        bbox: AxisAlignedBoundingBox,
        p: V2,
        i: int,
    ) -> bool {
        let n = self.segments@.len() as int;
        let a = self.segments@[i].point;
        let b = self.segments@[(i + 1) % n].point;
        let inv = self.segments@[i].inv_length.raw as int;
        &&& (bbox.spec_contains(a) || bbox.spec_contains(b))
        &&& 0 <= seg_ratio(a, b, inv, p) <= sc()
    }

    /// The depth of the candidate edge starting at ring position `i`.
    pub open spec fn edge_depth(self, p: V2, i: int) -> int {
        let n = self.segments@.len() as int;
        seg_depth(
            self.segments@[i].point,
            self.segments@[(i + 1) % n].point,
            self.segments@[i].inv_length.raw as int,
            p,
        )
    }

    /// An empty ring.
    pub fn empty() -> (r: ClosedPolygon)
        ensures
            r.wf(),
            r.points_seq().len() == 0,
    {
        let r = ClosedPolygon {
            segments: Vec::new(),
            bounding_box: AxisAlignedBoundingBox::from_min_max(V2::zeros(), V2::zeros()),
        };
        proof {
            assert(r.points_seq() =~= Seq::empty());
        }
        r
    }

    /// A ring over the given points.
    pub fn new(points: &Vec<V2>) -> (r: ClosedPolygon)
        ensures
            r.wf(),
            r.points_seq() == points@,
    {
        let mut r = ClosedPolygon::empty();
        r.update(points);
        r
    }

    /// Inverse length of the segment from `a` to `b`.
    fn inv_len(a: V2, b: V2) -> (r: Scalar)
        ensures
            r.raw == seg_inv_len(a, b),
    {
        let m = b.minus(a).magnitude();
        if m.raw == 0 {
            Scalar { raw: 0 }
        } else {
            Scalar::one().over(m)
        }
    }

    /// Rebuilds the ring from fresh point positions, recomputing every
    /// cached inverse length and the bounding box.
    pub fn update(&mut self, points: &Vec<V2>)
        ensures
            final(self).wf(),
            final(self).points_seq() == points@,
    {
        let n = points.len();
        let mut segs: Vec<SegmentPoint> = Vec::new();
        let mut bb = AxisAlignedBoundingBox::builder();
        let mut i: usize = 0;
        while i < n
            invariant
                n == points@.len(),
                i <= n,
                segs@.len() == i,
                bb.wf(),
                bb.seen@ =~= points@.subrange(0, i as int),
                forall|k: int|
                    0 <= k < i ==> (#[trigger] segs@[k]).point == points@[k] && segs@[k].inv_length.raw
                        == seg_inv_len(points@[k], points@[(k + 1) % (n as int)]),
            decreases n - i,
        {
            let next = points[(i + 1) % n];
            let inv = ClosedPolygon::inv_len(points[i], next);
            segs.push(SegmentPoint { point: points[i], inv_length: inv });
            bb.add_point(points[i]);
            proof {
                assert(bb.seen@ =~= points@.subrange(0, i + 1));
            }
            i = i + 1;
        }
        let bbox = bb.build();
        self.segments = segs;
        self.bounding_box = bbox;
        proof {
            assert(self.points_seq() =~= points@);
            if n > 0 {
                assert(bb.seen@ =~= self.points_seq());
                assert(corner_bounds(bb.seen@, n as nat) == corner_bounds(
                    self.points_seq(),
                    n as nat,
                ));
            }
        }
    }

    /// The bounding box spanning the ring.
    pub fn bounding_box(&self) -> (r: &AxisAlignedBoundingBox)
        ensures
            *r == self.bounding_box,
    {
        &self.bounding_box
    }

    /// The ring points, copied out in order.
    pub fn points(&self) -> (r: Vec<V2>)
        ensures
            r@ == self.points_seq(),
    {
        let n = self.segments.len();
        let mut out: Vec<V2> = Vec::new();
        let mut i: usize = 0;
        while i < n
            invariant
                n == self.segments@.len(),
                i <= n,
                out@.len() == i,
                forall|k: int| 0 <= k < i ==> (#[trigger] out@[k]) == self.segments@[k].point,
            decreases n - i,
        {
            out.push(self.segments[i].point);
            i = i + 1;
        }
        proof {
            assert(out@ =~= self.points_seq());
        }
        out
    }

    /// The ring point at a position.
    pub fn point_at(&self, i: usize) -> (r: V2)
        requires
            i < self.points_seq().len(),
        ensures
            r == self.points_seq()[i as int],
    {
        self.segments[i].point
    }

    /// Number of ring points.
    pub fn len(&self) -> (r: usize)
        ensures
            r == self.points_seq().len(),
    {
        self.segments.len()
    }

    /// The ray-cast parity test with a rightward horizontal ray.
    pub fn has_point_inside(&self, point: V2) -> (r: bool)
        ensures
            r == point_inside(self.points_seq(), point),
    {
        let len = self.segments.len();
        let mut count: usize = 0;
        let mut i: usize = 0;
        while i < len
            invariant
                len == self.segments@.len(),
                i <= len,
                count <= i,
                count == crossings(self.points_seq(), point, i as nat),
            decreases len - i,
        {
            let a = self.segments[i].point;
            let b = self.segments[(i + 1) % len].point;
            if point.y.lt(a.y) != point.y.lt(b.y) {
                let t = point.y.minus(a.y).over(b.y.minus(a.y));
                let cx = a.x.plus(t.times(b.x.minus(a.x)));
                if point.x.lt(cx) {
                    count = count + 1;
                }
            }
            proof {
                assert(self.points_seq()[i as int] == a);
                assert(self.points_seq()[((i + 1) as int) % (len as int)] == b);
            }
            i = i + 1;
        }
        count % 2 == 1
    }

    /// Finds the minimum-depth eligible segment for a query point: an
    /// edge with an endpoint inside the probe box whose projection ratio
    /// lies in `[0, 1]`.  A tie in depth is broken by a fair coin flip.
    pub fn closest_segment_within_bounding_box(
        &self,
        point: V2,
        bbox: &AxisAlignedBoundingBox,
        rng: &mut RandomSource,
    ) -> (r: Option<ClosestSegment>)
        ensures
            match r {
                Some(s) => {
                    let n = self.points_seq().len() as int;
                    &&& 0 < n
                    &&& 0 <= s.index1 < n
                    &&& s.index2 == (s.index1 + 1) % n
                    &&& s.point1 == self.points_seq()[s.index1 as int]
                    &&& s.point2 == self.points_seq()[s.index2 as int]
                    &&& self.edge_eligible(*bbox, point, s.index1 as int)
                    &&& s.ratio.raw == seg_ratio(
                        s.point1,
                        s.point2,
                        self.segments@[s.index1 as int].inv_length.raw as int,
                        point,
                    )
                    &&& s.depth.raw == self.edge_depth(point, s.index1 as int)
                    &&& forall|i: int|
                        0 <= i < n && self.edge_eligible(*bbox, point, i)
                            ==> s.depth.raw <= #[trigger] self.edge_depth(point, i)
                },
                None => forall|i: int|
                    0 <= i < self.points_seq().len() ==> !self.edge_eligible(*bbox, point, i),
            },
    {
        let len = self.segments.len();
        let mut best: Option<ClosestSegment> = None;
        let mut i: usize = 0;
        while i < len
            invariant
                len == self.segments@.len(),
                i <= len,
                match best {
                    Some(s) => {
                        let n = len as int;
                        &&& 0 < n
                        &&& 0 <= s.index1 < i
                        &&& s.index2 == (s.index1 + 1) % n
                        &&& s.point1 == self.points_seq()[s.index1 as int]
                        &&& s.point2 == self.points_seq()[s.index2 as int]
                        &&& self.edge_eligible(*bbox, point, s.index1 as int)
                        &&& s.ratio.raw == seg_ratio(
                            s.point1,
                            s.point2,
                            self.segments@[s.index1 as int].inv_length.raw as int,
                            point,
                        )
                        &&& s.depth.raw == self.edge_depth(point, s.index1 as int)
                        &&& forall|k: int|
                            0 <= k < i && self.edge_eligible(*bbox, point, k) ==> s.depth.raw
                                <= #[trigger] self.edge_depth(point, k)
                    },
                    None => forall|k: int|
                        0 <= k < i ==> !self.edge_eligible(*bbox, point, k),
                },
            decreases len - i,
        {
            let index2 = (i + 1) % len;
            let a = self.segments[i].point;
            let b = self.segments[index2].point;
            let inv = self.segments[i].inv_length;
            if bbox.contains_point(a) || bbox.contains_point(b) {
                let ab = b.minus(a);
                let ap = point.minus(a);
                let ratio = ap.dot(ab).times(inv.times(inv));
                if ratio.raw >= 0 && ratio.raw <= crate::scalar::SCALE {
                    let depth = ab.x.times(a.y.minus(point.y)).minus(
                        a.x.minus(point.x).times(ab.y),
                    ).times(inv);
                    let candidate = ClosestSegment {
                        index1: i,
                        index2,
                        point1: a,
                        point2: b,
                        depth,
                        ratio,
                    };
                    proof {
                        assert(self.edge_eligible(*bbox, point, i as int));
                        assert(depth.raw == self.edge_depth(point, i as int));
                    }
                    match best {
                        None => {
                            best = Some(candidate);
                        },
                        Some(s) => {
                            if depth.lt(s.depth) {
                                best = Some(candidate);
                            } else if depth.raw == s.depth.raw {
                                if rng.coin() {
                                    best = Some(candidate);
                                }
                            }
                        },
                    }
                } else {
                    proof {
                        assert(!self.edge_eligible(*bbox, point, i as int));
                    }
                }
            } else {
                proof {
                    assert(!self.edge_eligible(*bbox, point, i as int));
                }
            }
            i = i + 1;
        }
        best
    }
}

} // verus!
