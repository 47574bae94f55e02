//! One simulated point mass.

use vstd::prelude::*;
use rand::Rng;
use crate::fp::{FP_LIMIT, SCALE};

verus! {

/// A point mass. All scalar fields are fixed-point at `fp::SCALE`.
///
/// `angle` is the satellite's accumulated orbital phase (a multiple of
/// `fp::ANGLE_STEP`), `orbit_radius` the distance a center keeps its
/// satellite at (0 when not orbiting), and `is_center` whether the body acted
/// as the gravitational center of a colliding pair in the most recent step.
#[derive(Clone, Copy, PartialEq, Eq, Structural, Debug)]
pub struct NBody {
    pub id: i32,
    pub x: i64,
    pub y: i64,
    pub mass: i64,
    pub radius: i64,
    pub vx: i64,
    pub vy: i64,
    pub angle: i64,
    pub orbit_radius: i64,
    pub is_center: bool,
}

/// Rejection of a body whose mass or radius is not positive.
#[derive(Clone, Copy, PartialEq, Eq, Structural, Debug)]
pub enum SimError {
    Construction,
}

/// Every stored scalar saturates at `FP_LIMIT`; mass and radius are positive.
pub open spec fn body_ok(b: NBody) -> bool {
    &&& -FP_LIMIT <= b.x <= FP_LIMIT
    &&& -FP_LIMIT <= b.y <= FP_LIMIT
    &&& -FP_LIMIT <= b.vx <= FP_LIMIT
    &&& -FP_LIMIT <= b.vy <= FP_LIMIT
    &&& 0 < b.mass <= FP_LIMIT
    &&& 0 < b.radius <= FP_LIMIT
    &&& 0 <= b.angle <= FP_LIMIT
    &&& 0 <= b.orbit_radius <= FP_LIMIT
}

/// Relies on rand's `Rng::gen_range` over an `i64` half-open range: uniform
/// in `[lo, hi)`, and it panics only on an empty range, which `lo < hi`
/// rules out.
#[verifier::external_body]
pub(crate) fn random_in(lo: i64, hi: i64) -> (r: i64)
    requires
        lo < hi,
    ensures
        lo <= r < hi,
{
    let mut rng = rand::thread_rng();
    rng.gen_range(lo..hi)
}

impl NBody {
    /// Constructs a body deterministically, every field given. The random
    /// draws of `new` are injected here, so scenarios can fix them.
    pub fn with_velocity(id: i32, x: i64, y: i64, mass: i64, radius: i64, vx: i64, vy: i64) -> (b:
        NBody)
        requires
            -FP_LIMIT <= x <= FP_LIMIT,
            -FP_LIMIT <= y <= FP_LIMIT,
            -FP_LIMIT <= vx <= FP_LIMIT,
            -FP_LIMIT <= vy <= FP_LIMIT,
            0 < mass <= FP_LIMIT,
            0 < radius <= FP_LIMIT,
        ensures
            b == (NBody {
                id,
                x,
                y,
                mass,
                radius,
                vx,
                vy,
                angle: 0,
                orbit_radius: 0,
                is_center: false,
            }),
            body_ok(b),
    {
        NBody { id, x, y, mass, radius, vx, vy, angle: 0, orbit_radius: 0, is_center: false }
    }

    /// Constructs a body at the given position with velocity components
    /// drawn uniformly from `[-1, 1)` units, rejecting a non-positive mass
    /// or radius.
    pub fn new(id: i32, x: i64, y: i64, mass: i64, radius: i64) -> (r: Result<NBody, SimError>)
        requires
            -FP_LIMIT <= x <= FP_LIMIT,
            -FP_LIMIT <= y <= FP_LIMIT,
            mass <= FP_LIMIT,
            radius <= FP_LIMIT,
        ensures
            r is Ok <==> (mass > 0 && radius > 0),
            r matches Ok(b) ==> {
                &&& body_ok(b)
                &&& b.id == id
                &&& b.x == x
                &&& b.y == y
                &&& b.mass == mass
                &&& b.radius == radius
                &&& -SCALE <= b.vx < SCALE
                &&& -SCALE <= b.vy < SCALE
                &&& b.angle == 0
                &&& b.orbit_radius == 0
                &&& !b.is_center
            },
    {
        if mass <= 0 || radius <= 0 {
            Err(SimError::Construction)
        } else {
            let vx = random_in(-SCALE, SCALE);
            let vy = random_in(-SCALE, SCALE);
            Ok(NBody::with_velocity(id, x, y, mass, radius, vx, vy))
        }
    }

    /// The early-exit interaction envelope: true iff the squared distance
    /// between centers is positive and below `dd` plus the two radii. The
    /// comparison of a squared distance against linear radii is kept exactly
    /// as stated.
    pub fn in_aabb(&self, other: &NBody, dd: i64) -> (r: bool)
        requires
            body_ok(*self),
            body_ok(*other),
            -FP_LIMIT <= dd <= FP_LIMIT,
        ensures
            r == within_envelope(*self, *other, dd as int),
    {
        let dx: i128 = (other.x as i128) - (self.x as i128);
        let dy: i128 = (other.y as i128) - (self.y as i128);
        proof {
            crate::fp::lemma_square_bound(dx as int, 2 * FP_LIMIT as int);
            crate::fp::lemma_square_bound(dy as int, 2 * FP_LIMIT as int);
        }
        let dist_sq: i128 = dx * dx + dy * dy;
        let bound: i128 = (dd as i128) + (other.radius as i128) + (self.radius as i128);
        dist_sq < bound && dist_sq > 0
    }

    /// Sets the center flag.
    pub fn set_is_center(&mut self, is_center: bool)
        ensures
            *final(self) == (NBody { is_center, ..*old(self) }),
    {
        self.is_center = is_center;
    }
}

/// The squared center distance is positive and under `dd + r_other + r_self`
/// (a squared length against linear ones, kept as the engine has it).
pub open spec fn within_envelope(a: NBody, b: NBody, dd: int) -> bool {
    let dsq = (b.x - a.x) * (b.x - a.x) + (b.y - a.y) * (b.y - a.y);
    0 < dsq < dd + b.radius + a.radius
}

} // verus!
