//! Resolution of point-in-polygon contacts.
//!
//! A penetrating vertex is moved out along the segment's outward normal
//! by its inverse-mass share of the penetration depth; the segment's
//! endpoints are left where they are.

use vstd::prelude::*;

verus! {

use crate::collision::PointInPolygon;
use crate::scalar::{fadd, fdiv, fmul, fneg, fsub, Scalar};
use crate::vec2::{fmag, V2};

/// Where a penetrating vertex comes to rest: moved along the segment's
/// perpendicular normal by the mass-weighted share
/// `depth * inv0 / (inv0 + inv1 + inv2)` of the penetration depth.
/// A degenerate segment, or three unmovable particles, leaves it in place.
pub open spec fn resolved_point(c: PointInPolygon, inv0: int, inv1: int, inv2: int) -> V2 {
    let dx = fsub(c.segment_point2.x.raw as int, c.segment_point1.x.raw as int);
    let dy = fsub(c.segment_point2.y.raw as int, c.segment_point1.y.raw as int);
    let m = fmag(dx, dy);
    let total = fadd(fadd(inv0, inv1), inv2);
    if m == 0 || total == 0 {
        c.particle_point
    } else {
        let nx = fneg(fdiv(dy, m));
        let ny = fdiv(dx, m);
        let share = fdiv(fmul(c.depth.raw as int, inv0), total);
        V2 {
            x: Scalar { raw: fadd(c.particle_point.x.raw as int, fmul(nx, share)) as i64 },
            y: Scalar { raw: fadd(c.particle_point.y.raw as int, fmul(ny, share)) as i64 },
        }
    }
}

/// The normal a penetrating vertex is moved along: the unit segment
/// direction rotated a quarter turn, so it is perpendicular to the
/// segment.  Zero for a degenerate segment or three unmovable
/// particles.
pub open spec fn resolved_normal(c: PointInPolygon, inv0: int, inv1: int, inv2: int) -> V2 {
    let dx = fsub(c.segment_point2.x.raw as int, c.segment_point1.x.raw as int);
    let dy = fsub(c.segment_point2.y.raw as int, c.segment_point1.y.raw as int);
    let m = fmag(dx, dy);
    let total = fadd(fadd(inv0, inv1), inv2);
    if m == 0 || total == 0 {
        V2 { x: Scalar { raw: 0 }, y: Scalar { raw: 0 } }
    } else {
        V2 {
            x: Scalar { raw: fneg(fdiv(dy, m)) as i64 },
            y: Scalar { raw: fdiv(dx, m) as i64 },
        }
    }
}

/// Resolves collisions into positional corrections.
pub struct CollisionResolver {
}

impl CollisionResolver {
    /// Builds a resolver.
    pub fn new() -> CollisionResolver {
        CollisionResolver {  }
    }

    /// Computes where the penetrating vertex comes to rest and the
    /// outward normal it was moved along, from the collision record and
    /// the inverse masses of the vertex and of the two segment
    /// endpoints.
    pub fn resolve_point_in_polygon(
        &self,
        c: &PointInPolygon,
        inv0: Scalar,
        inv1: Scalar,
        inv2: Scalar,
    ) -> (r: (V2, V2))
        ensures
            r.0 == resolved_point(*c, inv0.raw as int, inv1.raw as int, inv2.raw as int),
            r.1 == resolved_normal(*c, inv0.raw as int, inv1.raw as int, inv2.raw as int),
    {
        let d = c.segment_point2.minus(c.segment_point1);
        let m = d.magnitude();
        let total = inv0.plus(inv1).plus(inv2);
        if m.raw == 0 || total.raw == 0 {
            (c.particle_point, V2::zeros())
        } else {
            let nx = d.y.over(m).neg();
            let ny = d.x.over(m);
            let share = c.depth.times(inv0).over(total);
            (
                V2::new(
                    c.particle_point.x.plus(nx.times(share)),
                    c.particle_point.y.plus(ny.times(share)),
                ),
                V2::new(nx, ny),
            )
        }
    }
}

} // verus!
