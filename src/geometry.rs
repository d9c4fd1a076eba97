//! Fixed-point points and partition planes, and the side test that every
//! traversal shares.
use vstd::prelude::*;
use crate::bspfile::PlaneType;
use crate::wire::{COORD_LIMIT, FIXED_ONE};

verus! {

/// A point or vector in fixed-point map units (`FIXED_ONE` per unit).
#[derive(Clone, Copy, Debug, PartialEq, Eq, Structural)]
pub struct Vec3T {
    pub x: i64,
    pub y: i64,
    pub z: i64,
}

pub open spec fn coord_ok(v: int) -> bool {
    -COORD_LIMIT < v < COORD_LIMIT
}

impl Vec3T {
    /// Every coordinate lies within the coordinate range.
    pub open spec fn wf(&self) -> bool {
        coord_ok(self.x as int) && coord_ok(self.y as int) && coord_ok(self.z as int)
    }

    pub fn new(x: i64, y: i64, z: i64) -> (r: Vec3T)
        ensures
            r == (Vec3T { x, y, z }),
    {
        Vec3T { x, y, z }
    }
}

/// A partitioning plane: `normal` with components of at most one unit,
/// distance from the origin, and axis classification.
#[derive(Clone, Copy, Debug, PartialEq, Eq, Structural)]
pub struct MPlaneT {
    pub normal: Vec3T,
    pub dist: i64,
    pub kind: PlaneType,
}

pub open spec fn unit_ok(v: int) -> bool {
    -FIXED_ONE <= v <= FIXED_ONE
}

impl MPlaneT {
    pub open spec fn wf(&self) -> bool {
        &&& unit_ok(self.normal.x as int)
        &&& unit_ok(self.normal.y as int)
        &&& unit_ok(self.normal.z as int)
        &&& coord_ok(self.dist as int)
    }
}

/// Signed distance of `p` from the plane, scaled by `FIXED_ONE * FIXED_ONE`.
/// An axial plane is measured along its axis alone.
pub open spec fn plane_diff(pl: MPlaneT, p: Vec3T) -> int {
    match pl.kind {
        PlaneType::X => (p.x - pl.dist) * FIXED_ONE,
        PlaneType::Y => (p.y - pl.dist) * FIXED_ONE,
        PlaneType::Z => (p.z - pl.dist) * FIXED_ONE,
        _ => pl.normal.x * p.x + pl.normal.y * p.y + pl.normal.z * p.z - pl.dist * FIXED_ONE,
    }
}

/// The one tie-break of the library: a point on the plane counts as in front.
pub open spec fn in_front(pl: MPlaneT, p: Vec3T) -> bool {
    plane_diff(pl, p) >= 0
}

/// Bound on `|plane_diff|` for well-formed planes and points.
pub const DIFF_LIMIT: i64 = 0x1000_0000_0000_0000;

/// Point-on-plane tolerance of classification: 0.1 unit, in `plane_diff` scale.
pub const ON_EPSILON: i64 = 429496729;

/// Tolerance of collision sweeps: 1/32 unit, in `plane_diff` scale.
pub const DIST_EPSILON: i64 = 134217728;

proof fn lemma_term_bound(n: int, c: int)
    requires
        unit_ok(n),
        coord_ok(c),
    ensures
        -0x100_0000_0000_0000 <= n * c <= 0x100_0000_0000_0000,
{
    assert(-0x100_0000_0000_0000 <= n * c <= 0x100_0000_0000_0000) by (nonlinear_arith)
        requires
            -0x1_0000 <= n <= 0x1_0000,
            -0x100_0000_0000 < c < 0x100_0000_0000,
    ;
}

/// Signed distance of `p` from `pl` (see `plane_diff`).
pub fn plane_distance(pl: &MPlaneT, p: &Vec3T) -> (r: i64)
    requires
        pl.wf(),
        p.wf(),
    ensures
        r == plane_diff(*pl, *p),
        -DIFF_LIMIT < r < DIFF_LIMIT,
{
    match pl.kind {
        PlaneType::X => (p.x - pl.dist) * FIXED_ONE,
        PlaneType::Y => (p.y - pl.dist) * FIXED_ONE,
        PlaneType::Z => (p.z - pl.dist) * FIXED_ONE,
        _ => {
            proof {
                lemma_term_bound(pl.normal.x as int, p.x as int);
                lemma_term_bound(pl.normal.y as int, p.y as int);
                lemma_term_bound(pl.normal.z as int, p.z as int);
            }
            pl.normal.x * p.x + pl.normal.y * p.y + pl.normal.z * p.z - pl.dist * FIXED_ONE
        },
    }
}

/// Whether `p` lies in front of `pl`, a point on the plane counting as in front.
pub fn point_in_front(pl: &MPlaneT, p: &Vec3T) -> (r: bool)
    requires
        pl.wf(),
        p.wf(),
    ensures
        r == in_front(*pl, *p),
{
    plane_distance(pl, p) >= 0
}

/// Where a point lies relative to a plane, within the point-on-plane tolerance.
#[derive(Clone, Copy, Debug, PartialEq, Eq, Structural)]
pub enum PlaneSide {
    Front,
    Back,
    On,
}

pub open spec fn side_of(pl: MPlaneT, p: Vec3T) -> PlaneSide {
    if plane_diff(pl, p) > ON_EPSILON {
        PlaneSide::Front
    } else if plane_diff(pl, p) < -ON_EPSILON {
        PlaneSide::Back
    } else {
        PlaneSide::On
    }
}

/// Classifies `p` as in front of, behind, or on `pl`.
pub fn classify_point(pl: &MPlaneT, p: &Vec3T) -> (r: PlaneSide)
    requires
        pl.wf(),
        p.wf(),
    ensures
        r == side_of(*pl, *p),
{
    let d = plane_distance(pl, p);
    if d > ON_EPSILON {
        PlaneSide::Front
    } else if d < -ON_EPSILON {
        PlaneSide::Back
    } else {
        PlaneSide::On
    }
}

} // verus!
