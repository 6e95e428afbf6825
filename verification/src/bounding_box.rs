//! Axis-aligned bounding boxes, stored as a center and a size.

use vstd::prelude::*;

verus! {

use crate::scalar::{abs_i, fadd, fdiv_int, fsub, sat64, Scalar};
use crate::vec2::V2;

/// An axis-aligned box given by its center point and its edge lengths.
#[derive(Clone, Copy, PartialEq, Eq, Structural, Debug)]
pub struct AxisAlignedBoundingBox {
    pub center: V2,
    pub size: V2,
}

/// Overlap test along one axis: twice the center distance is under the
/// summed sizes.
pub open spec fn axis_overlaps(c1: int, s1: int, c2: int, s2: int) -> bool {
    fadd(sat64(abs_i(fsub(c2, c1))), sat64(abs_i(fsub(c2, c1)))) < fadd(s2, s1)
}

/// Containment test along one axis.
pub open spec fn axis_contains(c: int, s: int, p: int) -> bool {
    fsub(c, fdiv_int(s, 2)) <= p <= fadd(c, fdiv_int(s, 2))
}

impl AxisAlignedBoundingBox {
    /// The box as center/size derived from corner points, as a spec value.
    pub open spec fn spec_from_min_max(mnx: int, mny: int, mxx: int, mxy: int)
        -> AxisAlignedBoundingBox {
        AxisAlignedBoundingBox {
            center: V2 {
                x: Scalar { raw: fdiv_int(fadd(mnx, mxx), 2) as i64 },
                y: Scalar { raw: fdiv_int(fadd(mny, mxy), 2) as i64 },
            },
            size: V2 {
                x: Scalar { raw: fsub(mxx, mnx) as i64 },
                y: Scalar { raw: fsub(mxy, mny) as i64 },
            },
        }
    }

    /// Builds a box directly from its center and size.
    pub fn new(center: V2, size: V2) -> (r: AxisAlignedBoundingBox)
        ensures
            r.center == center,
            r.size == size,
    {
        AxisAlignedBoundingBox { center, size }
    }

    /// The empty box at the origin.
    pub fn empty() -> (r: AxisAlignedBoundingBox)
        ensures
            r == (AxisAlignedBoundingBox {
                center: V2 { x: Scalar { raw: 0 }, y: Scalar { raw: 0 } },
                size: V2 { x: Scalar { raw: 0 }, y: Scalar { raw: 0 } },
            }),
    {
        AxisAlignedBoundingBox { center: V2::zeros(), size: V2::zeros() }
    }

    /// Builds the box spanning two corner points.
    pub fn from_min_max(min: V2, max: V2) -> (r: AxisAlignedBoundingBox)
        ensures
            r == AxisAlignedBoundingBox::spec_from_min_max(
                min.x.raw as int,
                min.y.raw as int,
                max.x.raw as int,
                max.y.raw as int,
            ),
    {
        let center = V2::new(min.x.plus(max.x).over_int(2), min.y.plus(max.y).over_int(2));
        let size = max.minus(min);
        AxisAlignedBoundingBox { center, size }
    }

    /// Opens an incremental builder.
    pub fn builder() -> (r: AxisAlignedBoundingBoxBuilder)
        ensures
            r.wf(),
            r.seen@.len() == 0,
    {
        AxisAlignedBoundingBoxBuilder::new()
    }

    /// Whether the two boxes overlap: on both axes, twice the center
    /// distance stays under the summed sizes.
    pub fn intersects(&self, other: &AxisAlignedBoundingBox) -> (r: bool)
        ensures
            r == (axis_overlaps(
                self.center.x.raw as int,
                self.size.x.raw as int,
                other.center.x.raw as int,
                other.size.x.raw as int,
            ) && axis_overlaps(
                self.center.y.raw as int,
                self.size.y.raw as int,
                other.center.y.raw as int,
                other.size.y.raw as int,
            )),
    {
        let dx = other.center.x.minus(self.center.x).abs();
        let dy = other.center.y.minus(self.center.y).abs();
        let ox = dx.plus(dx).lt(other.size.x.plus(self.size.x));
        let oy = dy.plus(dy).lt(other.size.y.plus(self.size.y));
        ox && oy
    }

    /// Whether the point lies inside the box, as a spec value.
    pub open spec fn spec_contains(self, point: V2) -> bool {
        axis_contains(self.center.x.raw as int, self.size.x.raw as int, point.x.raw as int)
            && axis_contains(self.center.y.raw as int, self.size.y.raw as int, point.y.raw as int)
    }

    /// Whether the point lies inside the box, boundary included.
    pub fn contains_point(&self, point: V2) -> (r: bool)
        ensures
            r == self.spec_contains(point),
    {
        let hx = self.size.x.over_int(2);
        let hy = self.size.y.over_int(2);
        let in_x = self.center.x.minus(hx).le(point.x) && point.x.le(self.center.x.plus(hx));
        let in_y = self.center.y.minus(hy).le(point.y) && point.y.le(self.center.y.plus(hy));
        in_x && in_y
    }
}

/// Running corner bounds over the points added so far.
pub struct AxisAlignedBoundingBoxBuilder {
    pub started: bool,
    pub min: V2,
    pub max: V2,
    pub seen: Ghost<Seq<V2>>,
}

/// The componentwise corner bounds of a non-empty point sequence:
/// `(min x, min y, max x, max y)` over the first `k` points.
pub open spec fn corner_bounds(pts: Seq<V2>, k: nat) -> (int, int, int, int)
    decreases k,
{
    if k <= 1 {
        (pts[0].x.raw as int, pts[0].y.raw as int, pts[0].x.raw as int, pts[0].y.raw as int)
    } else {
        let (mnx, mny, mxx, mxy) = corner_bounds(pts, (k - 1) as nat);
        let p = pts[k - 1];
        (
            if p.x.raw < mnx { p.x.raw as int } else { mnx },
            if p.y.raw < mny { p.y.raw as int } else { mny },
            if p.x.raw > mxx { p.x.raw as int } else { mxx },
            if p.y.raw > mxy { p.y.raw as int } else { mxy },
        )
    }
}

/// The corner bounds of a prefix bound every point of that prefix and
/// are attained inside it.
pub proof fn lemma_corner_bounds(pts: Seq<V2>, k: nat)
    requires
        1 <= k <= pts.len(),
    ensures
        ({
            let (mnx, mny, mxx, mxy) = corner_bounds(pts, k);
            &&& forall|i: int|
                0 <= i < k ==> mnx <= (#[trigger] pts[i]).x.raw && pts[i].x.raw <= mxx && mny
                    <= pts[i].y.raw && pts[i].y.raw <= mxy
            &&& i64::MIN as int <= mnx <= i64::MAX as int
            &&& i64::MIN as int <= mny <= i64::MAX as int
            &&& i64::MIN as int <= mxx <= i64::MAX as int
            &&& i64::MIN as int <= mxy <= i64::MAX as int
        }),
    decreases k,
{
    if k > 1 {
        lemma_corner_bounds(pts, (k - 1) as nat);
    }
}

impl AxisAlignedBoundingBoxBuilder {
    /// The tracked corners match the bounds of the points seen so far.
    pub open spec fn wf(self) -> bool {
        &&& self.started == (self.seen@.len() > 0)
        &&& !self.started ==> self.min == V2 { x: Scalar { raw: 0 }, y: Scalar { raw: 0 } }
            && self.max == V2 { x: Scalar { raw: 0 }, y: Scalar { raw: 0 } }
        &&& self.started ==> ({
            let (mnx, mny, mxx, mxy) = corner_bounds(self.seen@, self.seen@.len());
            self.min.x.raw == mnx && self.min.y.raw == mny && self.max.x.raw == mxx
                && self.max.y.raw == mxy
        })
    }

    /// Opens a builder that has seen no point yet.
    pub fn new() -> (r: AxisAlignedBoundingBoxBuilder)
        ensures
            r.wf(),
            r.seen@.len() == 0,
    {
        AxisAlignedBoundingBoxBuilder {
            started: false,
            min: V2::zeros(),
            max: V2::zeros(),
            seen: Ghost(Seq::empty()),
        }
    }

    /// Extends the bounds by one point.  The first point initialises
    /// them; later points only widen them.
    pub fn add_point(&mut self, point: V2)
        requires
            old(self).wf(),
        ensures
            final(self).wf(),
            final(self).seen@ == old(self).seen@.push(point),
    {
        let ghost pre = *self;
        if !self.started {
            self.started = true;
            self.min = point;
            self.max = point;
        } else {
            self.min = V2::new(self.min.x.min(point.x), self.min.y.min(point.y));
            self.max = V2::new(self.max.x.max(point.x), self.max.y.max(point.y));
        }
        proof {
            self.seen@ = pre.seen@.push(point);
            assert(self.seen@.len() >= 1);
            if pre.seen@.len() > 0 {
                assert(corner_bounds(self.seen@, (self.seen@.len() - 1) as nat) == corner_bounds(
                    pre.seen@,
                    pre.seen@.len(),
                )) by {
                    lemma_corner_bounds_prefix(pre.seen@, self.seen@, pre.seen@.len());
                }
            }
        }
    }

    /// Closes the builder into the box spanning the tracked corners.
    /// Before any point was added it yields the empty box at the origin.
    pub fn build(&self) -> (r: AxisAlignedBoundingBox)
        requires
            self.wf(),
        ensures
            self.seen@.len() > 0 ==> ({
                let (mnx, mny, mxx, mxy) = corner_bounds(self.seen@, self.seen@.len());
                r == AxisAlignedBoundingBox::spec_from_min_max(mnx, mny, mxx, mxy)
            }),
            self.seen@.len() == 0 ==> r == AxisAlignedBoundingBox::spec_from_min_max(0, 0, 0, 0),
    {
        AxisAlignedBoundingBox::from_min_max(self.min, self.max)
    }
}

/// Corner bounds only read the first `k` points, so they agree on any
/// extension of the sequence.
pub proof fn lemma_corner_bounds_prefix(a: Seq<V2>, b: Seq<V2>, k: nat)
    requires
        1 <= k <= a.len(),
        k <= b.len(),
        forall|i: int| 0 <= i < k ==> a[i] == b[i],
    ensures
        corner_bounds(a, k) == corner_bounds(b, k),
    decreases k,
{
    if k > 1 {
        lemma_corner_bounds_prefix(a, b, (k - 1) as nat);
    }
}

} // verus!
