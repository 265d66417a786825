//! The simulated entities and the fixed-point ranges the physics core
//! works inside.

use vstd::prelude::*;

verus! {

/// Fixed-point ticks per length unit, velocity unit and second.
pub const SCALE: i64 = 1000;

/// Two bodies closer than this collide (10 length units).
pub const COLLIDE_DIST: i64 = 10 * SCALE;

/// Pairs closer than one length unit are treated as one length unit
/// apart when gravity is computed, so a coincident or near-coincident
/// pair never yields a degenerate force.
pub const MIN_SEP: i64 = SCALE;

/// Largest magnitude of a position component a frame may start from.
pub const POS_LIMIT: i64 = 0x100_0000_0000;

/// Largest magnitude of a velocity component a frame may start from.
pub const VEL_LIMIT: i64 = 0x100_0000_0000;

/// Largest mass of a body.
pub const MASS_LIMIT: u32 = 1024;

/// Largest elapsed time of one frame (about 65 seconds).
pub const TIME_LIMIT: i64 = 0x1_0000;

/// Largest number of bodies.
pub const N_LIMIT: usize = 256;

/// Largest magnitude one pair's gravity can add to a velocity
/// component: `MASS_LIMIT * MASS_LIMIT * SCALE * SCALE * SCALE`
/// divided by `MIN_SEP * MIN_SEP`.
pub const PAIR_DELTA_LIMIT: i64 = 1024 * 1024 * 1000;

/// Largest magnitude of a velocity component after the gravity system
/// ran: `VEL_LIMIT + N_LIMIT * N_LIMIT * PAIR_DELTA_LIMIT` rounded up.
pub const VEL_STEP_LIMIT: i64 = 0x8000_0000_0000;

/// A point mass. Positions and velocities are fixed-point components
/// scaled by `SCALE`; the identity of a body is its index in the
/// registry it lives in.
#[derive(Clone, Copy, Debug, PartialEq, Eq, Structural)]
pub struct Body {
    pub x: i64,
    pub y: i64,
    pub vx: i64,
    pub vy: i64,
    pub mass: u32,
}

/// The mathematical value of a body: the same components as unbounded
/// integers, which the contracts are stated over.
pub ghost struct BodyModel {
    pub x: int,
    pub y: int,
    pub vx: int,
    pub vy: int,
    pub mass: int,
}

impl View for Body {
    type V = BodyModel;

    open spec fn view(&self) -> BodyModel {
        BodyModel {
            x: self.x as int,
            y: self.y as int,
            vx: self.vx as int,
            vy: self.vy as int,
            mass: self.mass as int,
        }
    }
}

/// The mathematical value of a body registry.
pub open spec fn models(v: Seq<Body>) -> Seq<BodyModel> {
    v.map_values(|b: Body| b@)
}

/// The ranges a body must start a frame in so that no fixed-point
/// operation of the frame can overflow.
pub open spec fn body_in_start_range(b: BodyModel) -> bool {
    &&& -POS_LIMIT <= b.x <= POS_LIMIT
    &&& -POS_LIMIT <= b.y <= POS_LIMIT
    &&& -VEL_LIMIT <= b.vx <= VEL_LIMIT
    &&& -VEL_LIMIT <= b.vy <= VEL_LIMIT
    &&& 0 < b.mass <= MASS_LIMIT
}

/// All bodies of a registry are in the frame-start ranges and there are
/// few enough of them for a frame's pair scan.
pub open spec fn bodies_in_start_range(s: Seq<BodyModel>) -> bool {
    &&& s.len() <= N_LIMIT
    &&& forall|k: int| 0 <= k < s.len() ==> body_in_start_range(#[trigger] s[k])
}

/// The looser ranges that hold between the gravity system and the end
/// of the frame: positions untouched, velocities grown by at most the
/// accumulated pair deltas.
pub open spec fn body_in_step_range(b: BodyModel) -> bool {
    &&& -POS_LIMIT <= b.x <= POS_LIMIT
    &&& -POS_LIMIT <= b.y <= POS_LIMIT
    &&& -VEL_STEP_LIMIT <= b.vx <= VEL_STEP_LIMIT
    &&& -VEL_STEP_LIMIT <= b.vy <= VEL_STEP_LIMIT
    &&& 0 < b.mass <= MASS_LIMIT
}

pub open spec fn bodies_in_step_range(s: Seq<BodyModel>) -> bool {
    forall|k: int| 0 <= k < s.len() ==> body_in_step_range(#[trigger] s[k])
}

/// Squared distance between two bodies, in squared fixed-point ticks.
pub open spec fn dist_sq(a: BodyModel, b: BodyModel) -> int {
    (b.x - a.x) * (b.x - a.x) + (b.y - a.y) * (b.y - a.y)
}

} // verus!
