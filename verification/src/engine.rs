//! The simulation engine: one discrete step of pairwise gravity, collision
//! resolution into center/satellite orbits, position integration and
//! boundary reflection, over an ordered body sequence and canvas bounds.

use vstd::prelude::*;
use crate::body::{body_ok, random_in, NBody, SimError};
use crate::fp::{
    clamp_to, clamped, isqrt, lemma_square_bound,
    lemma_tdiv_bound, rot, rot_exec, sqrt_floor, tdiv, tdiv_exec, ANGLE_STEP, FP_LIMIT, G_DEN,
    G_NUM, SCALE,
};

verus! {

/// Default canvas width: 800 units.
pub const DEFAULT_WIDTH: i64 = 800_000_000_000_000_000;

/// Default canvas height: 600 units.
pub const DEFAULT_HEIGHT: i64 = 600_000_000_000_000_000;

/// The center distance of two bodies: the integer square root of the squared
/// fixed-point distance.
pub open spec fn dist_of(a: NBody, b: NBody) -> int {
    sqrt_floor((((b.x - a.x) * (b.x - a.x) + (b.y - a.y) * (b.y - a.y))) as nat) as int
}

/// The acceleration one gravitation step applies along one axis: the
/// fixed-point value of `G * m * diff / d^3`, computed by three truncating
/// divisions by the distance.
pub open spec fn grav_accel(m: int, diff: int, d: int) -> int
    recommends
        d >= 1,
{
    let a1 = (G_NUM * m) / (G_DEN as int);
    let a2 = tdiv(a1 * diff, d);
    let a3 = tdiv(a2 * SCALE, d);
    tdiv(a3 * SCALE, d)
}

/// The collision branch: the center keeps its state but takes the center
/// flag and the orbit radius; the satellite advances its phase one step and
/// is repositioned on the orbit circle around the center's (pre-step)
/// position. The satellite's velocity and center flag are untouched.
pub open spec fn collide(center: NBody, sat: NBody, dd: int) -> (NBody, NBody) {
    let orad = clamped(center.radius + sat.radius + dd, FP_LIMIT as int);
    let angle2 = clamped(sat.angle + ANGLE_STEP, FP_LIMIT as int);
    let k = (angle2 / (ANGLE_STEP as int)) as nat;
    (
        NBody { is_center: true, orbit_radius: orad as i64, ..center },
        NBody {
            angle: angle2 as i64,
            x: clamped(center.x + tdiv(orad * rot(k).0, SCALE as int), FP_LIMIT as int) as i64,
            y: clamped(center.y + tdiv(orad * rot(k).1, SCALE as int), FP_LIMIT as int) as i64,
            ..sat
        },
    )
}

/// What one processed pair becomes: collision when the center distance is
/// under the radii sum plus the slack `dd` (the body of larger radius, or on
/// a tie the first, becomes the center); otherwise gravitation, the same
/// acceleration applied with opposite signs to the two ends; a coincident
/// pair (distance zero) is left untouched.
pub open spec fn spec_interact(bi: NBody, bj: NBody, dd: int) -> (NBody, NBody) {
    let dx = bj.x - bi.x;
    let dy = bj.y - bi.y;
    let d = dist_of(bi, bj);
    if d < bi.radius + bj.radius + dd {
        if bi.radius >= bj.radius {
            collide(bi, bj, dd)
        } else {
            let p = collide(bj, bi, dd);
            (p.1, p.0)
        }
    } else if d > 0 {
        let ax = grav_accel(bj.mass as int, dx, d);
        let ay = grav_accel(bj.mass as int, dy, d);
        (
            NBody {
                vx: clamped(bi.vx + ax, FP_LIMIT as int) as i64,
                vy: clamped(bi.vy + ay, FP_LIMIT as int) as i64,
                is_center: false,
                ..bi
            },
            NBody {
                vx: clamped(bj.vx - ax, FP_LIMIT as int) as i64,
                vy: clamped(bj.vy - ay, FP_LIMIT as int) as i64,
                is_center: false,
                ..bj
            },
        )
    } else {
        (bi, bj)
    }
}

/// One pair of the quadratic pass applied to the sequence.
pub open spec fn step_pair(s: Seq<NBody>, dd: int, i: int, j: int) -> Seq<NBody>
    recommends
        0 <= i < s.len(),
        0 <= j < s.len(),
        i != j,
{
    let p = spec_interact(s[i], s[j], dd);
    s.update(i, p.0).update(j, p.1)
}

/// The pairwise pass from pair `(i, j)` on, in increasing index order:
/// all pairs `(a, b)` with `i <= a < b` still to process, starting at `j`.
pub open spec fn pairs_from(s: Seq<NBody>, dd: int, i: nat, j: nat) -> Seq<NBody>
    decreases s.len() - i, s.len() + 1 - j,
{
    if i >= s.len() {
        s
    } else if j >= s.len() {
        pairs_from(s, dd, (i + 1) as nat, (i + 2) as nat)
    } else {
        pairs_from(step_pair(s, dd, i as int, j as int), dd, i, (j + 1) as nat)
    }
}

/// Integration and boundary reflection of one body: the position advances by
/// the velocity, then each axis independently clamps to the canvas net of
/// the radius and negates that velocity component when the body left it.
pub open spec fn spec_move(b: NBody, w: int, h: int) -> NBody {
    let x1 = clamped(b.x + b.vx, FP_LIMIT as int);
    let y1 = clamped(b.y + b.vy, FP_LIMIT as int);
    NBody {
        x: if x1 < b.radius {
            b.radius
        } else if x1 > w - b.radius {
            (w - b.radius) as i64
        } else {
            x1 as i64
        },
        vx: if x1 < b.radius || x1 > w - b.radius {
            (-(b.vx as int)) as i64
        } else {
            b.vx
        },
        y: if y1 < b.radius {
            b.radius
        } else if y1 > h - b.radius {
            (h - b.radius) as i64
        } else {
            y1 as i64
        },
        vy: if y1 < b.radius || y1 > h - b.radius {
            (-(b.vy as int)) as i64
        } else {
            b.vy
        },
        ..b
    }
}

/// One whole step: every unordered pair once, in increasing index order,
/// then integration and reflection of every body.
pub open spec fn spec_step(s: Seq<NBody>, dd: int, w: int, h: int) -> Seq<NBody> {
    let mid = pairs_from(s, dd, 0, 1);
    Seq::new(mid.len(), |k: int| spec_move(mid[k], w, h))
}

proof fn lemma_interact_ok(bi: NBody, bj: NBody, dd: int)
    requires
        body_ok(bi),
        body_ok(bj),
        0 <= dd <= FP_LIMIT,
    ensures
        body_ok(spec_interact(bi, bj, dd).0),
        body_ok(spec_interact(bi, bj, dd).1),
        spec_interact(bi, bj, dd).0.mass == bi.mass,
        spec_interact(bi, bj, dd).1.mass == bj.mass,
{
}

proof fn lemma_pairs_from_ok(s: Seq<NBody>, dd: int, i: nat, j: nat)
    requires
        0 <= dd <= FP_LIMIT,
        forall|k: int| 0 <= k < s.len() ==> body_ok(#[trigger] s[k]),
    ensures
        pairs_from(s, dd, i, j).len() == s.len(),
        forall|k: int| 0 <= k < s.len() ==> body_ok(#[trigger] pairs_from(s, dd, i, j)[k]),
    decreases s.len() - i, s.len() + 1 - j,
{
    if i >= s.len() {
    } else if j >= s.len() {
        lemma_pairs_from_ok(s, dd, (i + 1) as nat, (i + 2) as nat);
    } else {
        lemma_interact_ok(s[i as int], s[j as int], dd);
        let s2 = step_pair(s, dd, i as int, j as int);
        assert(forall|k: int| 0 <= k < s2.len() ==> body_ok(#[trigger] s2[k]));
        lemma_pairs_from_ok(s2, dd, i, (j + 1) as nat);
    }
}

proof fn lemma_move_ok(b: NBody, w: int, h: int)
    requires
        body_ok(b),
        0 < w <= FP_LIMIT,
        0 < h <= FP_LIMIT,
    ensures
        body_ok(spec_move(b, w, h)),
        2 * b.radius <= w ==> b.radius <= spec_move(b, w, h).x <= w - b.radius,
        2 * b.radius <= h ==> b.radius <= spec_move(b, w, h).y <= h - b.radius,
        spec_move(b, w, h).radius == b.radius,
{
}

/// The acceleration along one axis, computed exactly as `grav_accel` states.
fn grav_accel_exec(m: i64, diff: i128, d: u128) -> (r: i128)
    requires
        0 < m <= FP_LIMIT,
        1 <= d <= 3_000_000_000_000_000_000,
        -(d as i128) <= diff <= d as i128,
    ensures
        r == grav_accel(m as int, diff as int, d as int),
        -100_000_000_000_000_000_000_000_000_000_000_000_000i128 <= r
            <= 100_000_000_000_000_000_000_000_000_000_000_000_000i128,
{
    let a1: i128 = ((G_NUM as u128 * m as u128) / (G_DEN as u128)) as i128;
    proof {
        assert(a1 == (G_NUM * m) / (G_DEN as int));
        assert(a1 <= 66_743_000);
        assert(0 <= a1);
        assert(-(a1 * (d as int)) <= (a1 as int) * (diff as int) <= a1 * (d as int)
            && a1 * (d as int) <= 66_743_000int * 3_000_000_000_000_000_000int) by (
        nonlinear_arith)
            requires
                0 <= a1 <= 66_743_000,
                -(d as int) <= diff as int <= d as int,
                1 <= d <= 3_000_000_000_000_000_000,
        ;
    }
    let a2: i128 = tdiv_exec(a1 * diff, d as i128);
    proof {
        lemma_tdiv_bound(a1 * diff, d as int, a1 as int);
        assert(-66_743_000 <= a2 <= 66_743_000) by {
            assert(-a1 <= a2 <= a1);
        }
        assert(-(66_743_000_000_000_000_000_000i128 * d) <= a2 * SCALE
            <= 66_743_000_000_000_000_000_000i128 * d) by (nonlinear_arith)
            requires
                -66_743_000 <= a2 <= 66_743_000,
                d >= 1,
                SCALE == 1_000_000_000_000_000i64,
        ;
    }
    let a3: i128 = tdiv_exec(a2 * (SCALE as i128), d as i128);
    proof {
        lemma_tdiv_bound(a2 * SCALE, d as int, 66_743_000_000_000_000_000_000int);
        assert(-66_743_000_000_000_000_000_000i128 <= a3 <= 66_743_000_000_000_000_000_000i128);
        assert(-(66_743_000_000_000_000_000_000_000_000_000_000_000int * d) <= a3 * SCALE
            <= 66_743_000_000_000_000_000_000_000_000_000_000_000int * d) by (nonlinear_arith)
            requires
                -66_743_000_000_000_000_000_000i128 <= a3 <= 66_743_000_000_000_000_000_000i128,
                d >= 1,
                SCALE == 1_000_000_000_000_000i64,
        ;
    }
    let r: i128 = tdiv_exec(a3 * (SCALE as i128), d as i128);
    proof {
        lemma_tdiv_bound(a3 * SCALE, d as int, 66_743_000_000_000_000_000_000_000_000_000_000_000int);
    }
    r
}

/// The collision branch, exactly as `collide` states.
fn collide_exec(center: NBody, sat: NBody, dd: i64) -> (r: (NBody, NBody))
    requires
        body_ok(center),
        body_ok(sat),
        0 <= dd <= FP_LIMIT,
    ensures
        r == collide(center, sat, dd as int),
        body_ok(r.0),
        body_ok(r.1),
{
    let orad: i64 = clamp_to(
        center.radius as i128 + sat.radius as i128 + dd as i128,
        FP_LIMIT,
    );
    let angle2: i64 = clamp_to(sat.angle as i128 + ANGLE_STEP as i128, FP_LIMIT);
    assert(0 < angle2);
    let k: u64 = (angle2 as u64) / (ANGLE_STEP as u64);
    assert(k as int == (angle2 as int) / (ANGLE_STEP as int));
    let (c, s) = rot_exec(k);
    proof {
        assert(-FP_LIMIT <= orad <= FP_LIMIT);
        assert((-1_000_000_000_000_000_000_000_000_000_000_000int) <= (orad as int) * (c as int)
            <= 1_000_000_000_000_000_000_000_000_000_000_000int) by (nonlinear_arith)
            requires
                -FP_LIMIT <= orad <= FP_LIMIT,
                -SCALE <= c <= SCALE,
                FP_LIMIT == 1_000_000_000_000_000_000i64,
                SCALE == 1_000_000_000_000_000i64,
        ;
        assert((-1_000_000_000_000_000_000_000_000_000_000_000int) <= (orad as int) * (s as int)
            <= 1_000_000_000_000_000_000_000_000_000_000_000int) by (nonlinear_arith)
            requires
                -FP_LIMIT <= orad <= FP_LIMIT,
                -SCALE <= s <= SCALE,
                FP_LIMIT == 1_000_000_000_000_000_000i64,
                SCALE == 1_000_000_000_000_000i64,
        ;
    }
    let sx: i64 = clamp_to(
        center.x as i128 + tdiv_exec((orad as i128) * (c as i128), SCALE as i128),
        FP_LIMIT,
    );
    let sy: i64 = clamp_to(
        center.y as i128 + tdiv_exec((orad as i128) * (s as i128), SCALE as i128),
        FP_LIMIT,
    );
    (
        NBody { is_center: true, orbit_radius: orad, ..center },
        NBody { angle: angle2, x: sx, y: sy, ..sat },
    )
}

/// One processed pair, exactly as `spec_interact` states.
fn interact(bi: NBody, bj: NBody, dd: i64) -> (r: (NBody, NBody))
    requires
        body_ok(bi),
        body_ok(bj),
        0 <= dd <= FP_LIMIT,
    ensures
        r == spec_interact(bi, bj, dd as int),
        body_ok(r.0),
        body_ok(r.1),
{
    let dx: i128 = bj.x as i128 - bi.x as i128;
    let dy: i128 = bj.y as i128 - bi.y as i128;
    proof {
        lemma_square_bound(dx as int, 2 * FP_LIMIT as int);
        lemma_square_bound(dy as int, 2 * FP_LIMIT as int);
    }
    let dsq: i128 = dx * dx + dy * dy;
    let d: u128 = isqrt(dsq as u128);
    proof {
        assert(d as int == dist_of(bi, bj));
        assert(d <= 3_000_000_000_000_000_000) by (nonlinear_arith)
            requires
                d * d <= dsq as u128,
                dsq as u128 <= 8_000_000_000_000_000_000_000_000_000_000_000_000u128,
        ;
        assert((dx as int) * (dx as int) <= dsq as int);
        assert((dy as int) * (dy as int) <= dsq as int);
        assert(-(d as int) <= dx as int <= d as int) by (nonlinear_arith)
            requires
                (dsq as int) < (d as int + 1) * (d as int + 1),
                (dx as int) * (dx as int) <= dsq as int,
                0 <= d <= 3_000_000_000_000_000_000,
        ;
        assert(-(d as int) <= dy as int <= d as int) by (nonlinear_arith)
            requires
                (dsq as int) < (d as int + 1) * (d as int + 1),
                (dy as int) * (dy as int) <= dsq as int,
                0 <= d <= 3_000_000_000_000_000_000,
        ;
        assert(-(d as i128) <= dx <= d as i128);
        assert(-(d as i128) <= dy <= d as i128);
    }
    let rsum: i128 = bi.radius as i128 + bj.radius as i128 + dd as i128;
    if (d as i128) < rsum {
        if bi.radius >= bj.radius {
            collide_exec(bi, bj, dd)
        } else {
            let p = collide_exec(bj, bi, dd);
            (p.1, p.0)
        }
    } else if d > 0 {
        let ax: i128 = grav_accel_exec(bj.mass, dx, d);
        let ay: i128 = grav_accel_exec(bj.mass, dy, d);
        let vxi: i64 = clamp_to(bi.vx as i128 + ax, FP_LIMIT);
        let vyi: i64 = clamp_to(bi.vy as i128 + ay, FP_LIMIT);
        let vxj: i64 = clamp_to(bj.vx as i128 - ax, FP_LIMIT);
        let vyj: i64 = clamp_to(bj.vy as i128 - ay, FP_LIMIT);
        (
            NBody { vx: vxi, vy: vyi, is_center: false, ..bi },
            NBody { vx: vxj, vy: vyj, is_center: false, ..bj },
        )
    } else {
        (bi, bj)
    }
}

/// Integration and reflection of one body, exactly as `spec_move` states.
fn move_body(b: NBody, w: i64, h: i64) -> (r: NBody)
    requires
        body_ok(b),
        0 < w <= FP_LIMIT,
        0 < h <= FP_LIMIT,
    ensures
        r == spec_move(b, w as int, h as int),
        body_ok(r),
{
    let x1: i64 = clamp_to(b.x as i128 + b.vx as i128, FP_LIMIT);
    let y1: i64 = clamp_to(b.y as i128 + b.vy as i128, FP_LIMIT);
    let mut x2: i64 = x1;
    let mut vx2: i64 = b.vx;
    if x1 < b.radius {
        x2 = b.radius;
        vx2 = -b.vx;
    } else if x1 > w - b.radius {
        x2 = w - b.radius;
        vx2 = -b.vx;
    }
    let mut y2: i64 = y1;
    let mut vy2: i64 = b.vy;
    if y1 < b.radius {
        y2 = b.radius;
        vy2 = -b.vy;
    } else if y1 > h - b.radius {
        y2 = h - b.radius;
        vy2 = -b.vy;
    }
    NBody { x: x2, y: y2, vx: vx2, vy: vy2, ..b }
}

/// The engine: an ordered body sequence (creation order, which fixes the
/// pair iteration order and so the tie-breaks) plus canvas bounds.
pub struct Simulation {
    pub bodies: Vec<NBody>,
    pub canvas_width: i64,
    pub canvas_height: i64,
}

impl Simulation {
    /// Canvas bounds are positive and within range, and every body is
    /// well-formed.
    pub open spec fn wf(self) -> bool {
        &&& 0 < self.canvas_width <= FP_LIMIT
        &&& 0 < self.canvas_height <= FP_LIMIT
        &&& forall|k: int|
            0 <= k < self.bodies@.len() ==> body_ok(#[trigger] self.bodies@[k])
    }

    /// An empty simulation on the default 800 x 600 canvas.
    pub fn new() -> (r: Simulation)
        ensures
            r.wf(),
            r.bodies@.len() == 0,
            r.canvas_width == DEFAULT_WIDTH,
            r.canvas_height == DEFAULT_HEIGHT,
    {
        Simulation {
            bodies: Vec::new(),
            canvas_width: DEFAULT_WIDTH,
            canvas_height: DEFAULT_HEIGHT,
        }
    }

    /// Stores new canvas bounds; bodies are not repositioned (one already
    /// outside the new bounds is only corrected by the next step's
    /// reflection pass).
    pub fn update_canvas_size(&mut self, width: i64, height: i64)
        requires
            old(self).wf(),
            0 < width <= FP_LIMIT,
            0 < height <= FP_LIMIT,
        ensures
            final(self).wf(),
            final(self).canvas_width == width,
            final(self).canvas_height == height,
            final(self).bodies@ == old(self).bodies@,
    {
        self.canvas_width = width;
        self.canvas_height = height;
    }

    /// A read-only copy of the current body collection; without an
    /// intervening mutation, two calls return identical collections.
    pub fn get_bodies(&self) -> (r: Vec<NBody>)
        ensures
            r@ == self.bodies@,
    {
        let mut out: Vec<NBody> = Vec::new();
        let mut k: usize = 0;
        let n = self.bodies.len();
        while k < n
            invariant
                k <= n,
                n == self.bodies@.len(),
                out@.len() == k,
                forall|m: int| 0 <= m < k ==> out@[m] == self.bodies@[m],
            decreases n - k,
        {
            let b = self.bodies[k];
            out.push(b);
            k = k + 1;
        }
        proof {
            assert(out@ =~= self.bodies@);
        }
        out
    }

    /// Constructs one body with random velocity and appends it; rejects a
    /// non-positive mass or radius without touching the state.
    pub fn create_body(&mut self, id: i32, x: i64, y: i64, mass: i64, radius: i64) -> (r: Result<
        NBody,
        SimError,
    >)
        requires
            old(self).wf(),
            -FP_LIMIT <= x <= FP_LIMIT,
            -FP_LIMIT <= y <= FP_LIMIT,
            mass <= FP_LIMIT,
            radius <= FP_LIMIT,
        ensures
            final(self).wf(),
            final(self).canvas_width == old(self).canvas_width,
            final(self).canvas_height == old(self).canvas_height,
            r is Ok <==> (mass > 0 && radius > 0),
            r matches Ok(b) ==> {
                &&& final(self).bodies@ == old(self).bodies@.push(b)
                &&& body_ok(b)
                &&& b.id == id
                &&& b.x == x
                &&& b.y == y
                &&& b.mass == mass
                &&& b.radius == radius
                &&& -SCALE <= b.vx < SCALE
                &&& -SCALE <= b.vy < SCALE
                &&& b.angle == 0
                &&& b.orbit_radius == 0
                &&& !b.is_center
            },
            r is Err ==> final(self).bodies@ == old(self).bodies@,
    {
        match NBody::new(id, x, y, mass, radius) {
            Ok(b) => {
                self.bodies.push(b);
                Ok(b)
            },
            Err(e) => Err(e),
        }
    }

    /// Appends an already constructed body (the deterministic counterpart
    /// of `create_body`, for injected velocities).
    pub fn add_body(&mut self, b: NBody)
        requires
            old(self).wf(),
            body_ok(b),
        ensures
            final(self).wf(),
            final(self).bodies@ == old(self).bodies@.push(b),
            final(self).canvas_width == old(self).canvas_width,
            final(self).canvas_height == old(self).canvas_height,
    {
        self.bodies.push(b);
    }

    /// Clears all bodies, stores the canvas bounds, and seeds `count` new
    /// bodies: radius uniform in `[5, 15)` units, mass exactly `radius * 50`,
    /// each position uniform in `[radius, dimension - radius)` so every body
    /// starts fully inside bounds, velocities uniform in `[-1, 1)`. Returns
    /// the full resulting collection.
    pub fn create_bodies(&mut self, count: usize, canvas_width: i64, canvas_height: i64) -> (r:
        Vec<NBody>)
        requires
            old(self).wf(),
            0 < canvas_width <= FP_LIMIT,
            0 < canvas_height <= FP_LIMIT,
            count <= 0x7FFF_FFFF,
            count > 0 ==> canvas_width >= 30 * SCALE && canvas_height >= 30 * SCALE,
        ensures
            final(self).wf(),
            final(self).canvas_width == canvas_width,
            final(self).canvas_height == canvas_height,
            r@ == final(self).bodies@,
            final(self).bodies@.len() == count,
            forall|k: int|
                0 <= k < count ==> {
                    &&& (#[trigger] final(self).bodies@[k]).id == k as i32
                    &&& 5 * SCALE <= final(self).bodies@[k].radius < 15 * SCALE
                    &&& final(self).bodies@[k].mass == final(self).bodies@[k].radius * 50
                    &&& final(self).bodies@[k].radius <= final(self).bodies@[k].x < canvas_width
                        - final(self).bodies@[k].radius
                    &&& final(self).bodies@[k].radius <= final(self).bodies@[k].y < canvas_height
                        - final(self).bodies@[k].radius
                    &&& -SCALE <= final(self).bodies@[k].vx < SCALE
                    &&& -SCALE <= final(self).bodies@[k].vy < SCALE
                    &&& final(self).bodies@[k].angle == 0
                    &&& final(self).bodies@[k].orbit_radius == 0
                    &&& !final(self).bodies@[k].is_center
                },
    {
        self.bodies = Vec::new();
        self.canvas_width = canvas_width;
        self.canvas_height = canvas_height;
        let mut i: usize = 0;
        while i < count
            invariant
                i <= count,
                count <= 0x7FFF_FFFF,
                self.bodies@.len() == i,
                self.canvas_width == canvas_width,
                self.canvas_height == canvas_height,
                0 < canvas_width <= FP_LIMIT,
                0 < canvas_height <= FP_LIMIT,
                count > 0 ==> canvas_width >= 30 * SCALE && canvas_height >= 30 * SCALE,
                forall|k: int|
                    0 <= k < i ==> {
                        &&& (#[trigger] self.bodies@[k]).id == k as i32
                        &&& 5 * SCALE <= self.bodies@[k].radius < 15 * SCALE
                        &&& self.bodies@[k].mass == self.bodies@[k].radius * 50
                        &&& self.bodies@[k].radius <= self.bodies@[k].x < canvas_width
                            - self.bodies@[k].radius
                        &&& self.bodies@[k].radius <= self.bodies@[k].y < canvas_height
                            - self.bodies@[k].radius
                        &&& -SCALE <= self.bodies@[k].vx < SCALE
                        &&& -SCALE <= self.bodies@[k].vy < SCALE
                        &&& self.bodies@[k].angle == 0
                        &&& self.bodies@[k].orbit_radius == 0
                        &&& !self.bodies@[k].is_center
                    },
            decreases count - i,
        {
            let radius = random_in(5 * SCALE, 15 * SCALE);
            let mass = radius * 50;
            let x = random_in(radius, canvas_width - radius);
            let y = random_in(radius, canvas_height - radius);
            let vx = random_in(-SCALE, SCALE);
            let vy = random_in(-SCALE, SCALE);
            let b = NBody::with_velocity(i as i32, x, y, mass, radius, vx, vy);
            self.bodies.push(b);
            i = i + 1;
        }
        self.get_bodies()
    }

    /// One simulation step with collision slack `dd`: every unordered pair
    /// `(i, j)`, `i < j`, processed once in increasing index order (collision
    /// or gravitation per `spec_interact`), then integration and boundary
    /// reflection of every body. Afterwards every body whose diameter fits
    /// the canvas lies inside it net of its radius.
    pub fn update_simulation(&mut self, dd: i64)
        requires
            old(self).wf(),
            0 <= dd <= FP_LIMIT,
        ensures
            final(self).wf(),
            final(self).canvas_width == old(self).canvas_width,
            final(self).canvas_height == old(self).canvas_height,
            final(self).bodies@ == spec_step(
                old(self).bodies@,
                dd as int,
                final(self).canvas_width as int,
                final(self).canvas_height as int,
            ),
            final(self).bodies@.len() == old(self).bodies@.len(),
            forall|k: int|
                0 <= k < final(self).bodies@.len() ==> {
                    &&& (2 * (#[trigger] final(self).bodies@[k]).radius <= final(self).canvas_width
                        ==> final(self).bodies@[k].radius <= final(self).bodies@[k].x <= final(self).canvas_width
                        - final(self).bodies@[k].radius)
                    &&& (2 * final(self).bodies@[k].radius <= final(self).canvas_height
                        ==> final(self).bodies@[k].radius <= final(self).bodies@[k].y <= final(self).canvas_height
                        - final(self).bodies@[k].radius)
                },
    {
        let ghost s0 = self.bodies@;
        let n = self.bodies.len();
        let mut i: usize = 0;
        while i < n
            invariant
                i <= n,
                n == self.bodies@.len(),
                n == s0.len(),
                0 <= dd <= FP_LIMIT,
                self.canvas_width == old(self).canvas_width,
                self.canvas_height == old(self).canvas_height,
                forall|k: int| 0 <= k < n ==> body_ok(#[trigger] self.bodies@[k]),
                pairs_from(self.bodies@, dd as int, i as nat, (i + 1) as nat) == pairs_from(
                    s0,
                    dd as int,
                    0,
                    1,
                ),
            decreases n - i,
        {
            let mut j: usize = i + 1;
            while j < n
                invariant
                    i < n,
                    i + 1 <= j <= n,
                    n == self.bodies@.len(),
                    n == s0.len(),
                    0 <= dd <= FP_LIMIT,
                    self.canvas_width == old(self).canvas_width,
                    self.canvas_height == old(self).canvas_height,
                    forall|k: int| 0 <= k < n ==> body_ok(#[trigger] self.bodies@[k]),
                    pairs_from(self.bodies@, dd as int, i as nat, j as nat) == pairs_from(
                        s0,
                        dd as int,
                        0,
                        1,
                    ),
                decreases n - j,
            {
                let ghost prev = self.bodies@;
                let bi = self.bodies[i];
                let bj = self.bodies[j];
                let p = interact(bi, bj, dd);
                self.bodies.set(i, p.0);
                self.bodies.set(j, p.1);
                proof {
                    assert(self.bodies@ == step_pair(prev, dd as int, i as int, j as int));
                    assert(pairs_from(prev, dd as int, i as nat, j as nat) == pairs_from(
                        self.bodies@,
                        dd as int,
                        i as nat,
                        (j + 1) as nat,
                    ));
                }
                j = j + 1;
            }
            proof {
                assert(pairs_from(self.bodies@, dd as int, i as nat, n as nat) == pairs_from(
                    self.bodies@,
                    dd as int,
                    (i + 1) as nat,
                    (i + 2) as nat,
                ));
            }
            i = i + 1;
        }
        proof {
            assert(pairs_from(self.bodies@, dd as int, n as nat, (n + 1) as nat)
                == self.bodies@);
        }
        let ghost mid = self.bodies@;
        let w = self.canvas_width;
        let h = self.canvas_height;
        let mut k: usize = 0;
        while k < n
            invariant
                k <= n,
                n == self.bodies@.len(),
                n == mid.len(),
                0 < w <= FP_LIMIT,
                0 < h <= FP_LIMIT,
                w == self.canvas_width,
                h == self.canvas_height,
                self.canvas_width == old(self).canvas_width,
                self.canvas_height == old(self).canvas_height,
                forall|m: int| 0 <= m < n ==> body_ok(#[trigger] self.bodies@[m]),
                forall|m: int| k <= m < n ==> #[trigger] self.bodies@[m] == mid[m],
                forall|m: int|
                    0 <= m < k ==> #[trigger] self.bodies@[m] == spec_move(
                        mid[m],
                        w as int,
                        h as int,
                    ),
            decreases n - k,
        {
            let b = self.bodies[k];
            let b2 = move_body(b, w, h);
            self.bodies.set(k, b2);
            k = k + 1;
        }
        proof {
            assert(mid == pairs_from(s0, dd as int, 0, 1));
            assert(self.bodies@ =~= spec_step(s0, dd as int, w as int, h as int));
            assert forall|m: int| 0 <= m < n implies {
                &&& (2 * (#[trigger] self.bodies@[m]).radius <= w as int ==> self.bodies@[m].radius
                    <= self.bodies@[m].x <= w - self.bodies@[m].radius)
                &&& (2 * self.bodies@[m].radius <= h as int ==> self.bodies@[m].radius
                    <= self.bodies@[m].y <= h - self.bodies@[m].radius)
            } by {
                lemma_pairs_from_ok(s0, dd as int, 0, 1);
                lemma_move_ok(mid[m], w as int, h as int);
            }
        }
    }
}

/// Law: in the gravitation branch the velocity change applied to the first
/// body is exactly opposite the change applied to the second — the force is
/// computed once per pair and applied to both ends with opposite sign —
/// provided neither velocity saturates; and both center flags are cleared.
pub proof fn lemma_gravity_equal_opposite(bi: NBody, bj: NBody, dd: int)
    requires
        body_ok(bi),
        body_ok(bj),
        0 <= dd <= FP_LIMIT,
        dist_of(bi, bj) >= bi.radius + bj.radius + dd,
        dist_of(bi, bj) > 0,
        -FP_LIMIT <= bi.vx + grav_accel(bj.mass as int, bj.x - bi.x, dist_of(bi, bj)) <= FP_LIMIT,
        -FP_LIMIT <= bi.vy + grav_accel(bj.mass as int, bj.y - bi.y, dist_of(bi, bj)) <= FP_LIMIT,
        -FP_LIMIT <= bj.vx - grav_accel(bj.mass as int, bj.x - bi.x, dist_of(bi, bj)) <= FP_LIMIT,
        -FP_LIMIT <= bj.vy - grav_accel(bj.mass as int, bj.y - bi.y, dist_of(bi, bj)) <= FP_LIMIT,
    ensures
        spec_interact(bi, bj, dd).0.vx - bi.vx == -(spec_interact(bi, bj, dd).1.vx - bj.vx),
        spec_interact(bi, bj, dd).0.vy - bi.vy == -(spec_interact(bi, bj, dd).1.vy - bj.vy),
        !spec_interact(bi, bj, dd).0.is_center,
        !spec_interact(bi, bj, dd).1.is_center,
        spec_interact(bi, bj, dd).0.x == bi.x,
        spec_interact(bi, bj, dd).1.x == bj.x,
        bi.mass == bj.mass ==> bi.mass * (spec_interact(bi, bj, dd).0.vx - bi.vx) == -(bj.mass
            * (spec_interact(bi, bj, dd).1.vx - bj.vx)),
{
    let dvi = spec_interact(bi, bj, dd).0.vx - bi.vx;
    let dvj = spec_interact(bi, bj, dd).1.vx - bj.vx;
    assert(dvi == -dvj);
    if bi.mass == bj.mass {
        assert(bi.mass * dvi == -(bj.mass * dvj)) by (nonlinear_arith)
            requires
                dvi == -dvj,
                bi.mass == bj.mass,
        ;
    }
}

/// Law: two bodies of equal radius that collide resolve deterministically —
/// the first (lower-index) body becomes the center with the full orbit
/// radius, the second becomes the satellite with its phase advanced one
/// step and its center flag untouched.
pub proof fn lemma_collision_tie_break(bi: NBody, bj: NBody, dd: int)
    requires
        body_ok(bi),
        body_ok(bj),
        0 <= dd <= FP_LIMIT,
        bi.radius == bj.radius,
        dist_of(bi, bj) < bi.radius + bj.radius + dd,
    ensures
        spec_interact(bi, bj, dd).0.is_center,
        spec_interact(bi, bj, dd).0.orbit_radius == clamped(
            bi.radius + bj.radius + dd,
            FP_LIMIT as int,
        ),
        spec_interact(bi, bj, dd).0.x == bi.x,
        spec_interact(bi, bj, dd).0.y == bi.y,
        spec_interact(bi, bj, dd).1.is_center == bj.is_center,
        spec_interact(bi, bj, dd).1.angle == clamped(bj.angle + ANGLE_STEP, FP_LIMIT as int),
        spec_interact(bi, bj, dd).1.id == bj.id,
{
}

} // verus!
