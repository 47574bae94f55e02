use nbody_sim::body::{NBody, SimError};
use nbody_sim::engine::Simulation;
use nbody_sim::fp::{ANGLE_STEP, SCALE};

const UNIT: i64 = SCALE;

fn body_at(id: i32, x_units: i64, y_units: i64, mass_units: i64, radius_units: i64) -> NBody {
    NBody::with_velocity(
        id,
        x_units * UNIT,
        y_units * UNIT,
        mass_units * UNIT,
        radius_units * UNIT,
        0,
        0,
    )
}

#[test]
fn containment_after_steps() {
    let mut sim = Simulation::new();
    sim.create_bodies(5, 800 * UNIT, 600 * UNIT);
    for _ in 0..20 {
        sim.update_simulation(UNIT);
        for b in sim.get_bodies() {
            assert!(b.radius <= b.x && b.x <= 800 * UNIT - b.radius);
            assert!(b.radius <= b.y && b.y <= 600 * UNIT - b.radius);
        }
    }
}

#[test]
fn gravity_equal_and_opposite() {
    let mut sim = Simulation::new();
    sim.add_body(body_at(0, 100, 300, 750, 10));
    sim.add_body(body_at(1, 700, 300, 750, 10));
    sim.update_simulation(UNIT);
    let bodies = sim.get_bodies();
    // d = 600 units exactly; G * m * dx / d^3 at scale comes to 139.
    assert_eq!(bodies[0].vx, 139);
    assert_eq!(bodies[1].vx, -139);
    assert_eq!(bodies[0].vy, 0);
    assert_eq!(bodies[1].vy, 0);
    // mass_i * dvx_i == -(mass_j * dvx_j) for the equal masses here
    assert_eq!(bodies[0].mass * bodies[0].vx, -(bodies[1].mass * bodies[1].vx));
    assert!(!bodies[0].is_center && !bodies[1].is_center);
}

#[test]
fn attracting_pair_closes_in() {
    let mut sim = Simulation::new();
    sim.add_body(body_at(0, 100, 300, 750, 10));
    sim.add_body(body_at(1, 700, 300, 750, 10));
    let mut last_gap = i64::MAX;
    for _ in 0..5 {
        sim.update_simulation(UNIT);
        let bodies = sim.get_bodies();
        let gap = bodies[1].x - bodies[0].x;
        assert!(gap < last_gap, "the pair must approach each other");
        assert!(bodies[0].vx > 0 && bodies[1].vx < 0);
        last_gap = gap;
    }
}

#[test]
fn collision_tie_break_lower_index_is_center() {
    let mut sim = Simulation::new();
    sim.add_body(body_at(0, 100, 300, 500, 10));
    sim.add_body(body_at(1, 112, 300, 500, 10));
    sim.update_simulation(0);
    let bodies = sim.get_bodies();
    assert!(bodies[0].is_center);
    assert_eq!(bodies[0].orbit_radius, 20 * UNIT);
    assert!(!bodies[1].is_center);
    assert_eq!(bodies[1].angle, ANGLE_STEP);
    assert_eq!(bodies[0].x, 100 * UNIT);
    assert_eq!(bodies[0].y, 300 * UNIT);
    // satellite sits on the orbit circle: center + 20 * (cos, sin) of one step
    assert_eq!(bodies[1].x, 100 * UNIT + 20 * 998_750_260_394_966);
    assert_eq!(bodies[1].y, 300 * UNIT + 20 * 49_979_169_270_678);
}

#[test]
fn collision_larger_radius_is_center() {
    let mut sim = Simulation::new();
    // radii 10 and 5, centers 12 apart, dd = 0: 12 < 15 collides
    sim.add_body(body_at(0, 100, 300, 500, 10));
    sim.add_body(body_at(1, 112, 300, 500, 5));
    sim.update_simulation(0);
    let bodies = sim.get_bodies();
    assert!(bodies[0].is_center);
    assert_eq!(bodies[0].orbit_radius, 15 * UNIT);
    assert!(!bodies[1].is_center);
}

#[test]
fn collision_larger_radius_is_center_reversed() {
    let mut sim = Simulation::new();
    sim.add_body(body_at(0, 112, 300, 500, 5));
    sim.add_body(body_at(1, 100, 300, 500, 10));
    sim.update_simulation(0);
    let bodies = sim.get_bodies();
    assert!(bodies[1].is_center);
    assert_eq!(bodies[1].orbit_radius, 15 * UNIT);
    assert_eq!(bodies[0].angle, ANGLE_STEP);
}

#[test]
fn snapshot_is_idempotent() {
    let mut sim = Simulation::new();
    sim.create_bodies(3, 800 * UNIT, 600 * UNIT);
    let s1 = sim.get_bodies();
    let s2 = sim.get_bodies();
    assert_eq!(s1, s2);
}

#[test]
fn populate_zero_is_empty() {
    let mut sim = Simulation::new();
    let r = sim.create_bodies(0, 800 * UNIT, 600 * UNIT);
    assert!(r.is_empty());
    assert!(sim.get_bodies().is_empty());
}

#[test]
fn populate_seeds_in_range() {
    let mut sim = Simulation::new();
    let r = sim.create_bodies(10, 800 * UNIT, 600 * UNIT);
    assert_eq!(r.len(), 10);
    for (k, b) in r.iter().enumerate() {
        assert_eq!(b.id, k as i32);
        assert!(5 * UNIT <= b.radius && b.radius < 15 * UNIT);
        assert_eq!(b.mass, b.radius * 50);
        assert!(b.radius <= b.x && b.x < 800 * UNIT - b.radius);
        assert!(b.radius <= b.y && b.y < 600 * UNIT - b.radius);
        assert!(-UNIT <= b.vx && b.vx < UNIT);
        assert!(-UNIT <= b.vy && b.vy < UNIT);
        assert_eq!(b.angle, 0);
        assert_eq!(b.orbit_radius, 0);
        assert!(!b.is_center);
    }
}

#[test]
fn populate_replaces_previous_bodies() {
    let mut sim = Simulation::new();
    sim.create_bodies(7, 800 * UNIT, 600 * UNIT);
    let r = sim.create_bodies(2, 400 * UNIT, 400 * UNIT);
    assert_eq!(r.len(), 2);
    assert_eq!(sim.get_bodies().len(), 2);
    assert_eq!(sim.canvas_width, 400 * UNIT);
    assert_eq!(sim.canvas_height, 400 * UNIT);
}

#[test]
fn reflection_clamps_and_negates() {
    let mut sim = Simulation::new();
    // x = radius - 1, vx = -2: after integration and reflection x == radius, vx == +2
    let b = NBody::with_velocity(0, 9 * UNIT, 300 * UNIT, 500 * UNIT, 10 * UNIT, -2 * UNIT, 0);
    sim.add_body(b);
    sim.update_simulation(0);
    let bodies = sim.get_bodies();
    assert_eq!(bodies[0].x, 10 * UNIT);
    assert_eq!(bodies[0].vx, 2 * UNIT);
    assert_eq!(bodies[0].y, 300 * UNIT);
    assert_eq!(bodies[0].vy, 0);
}

#[test]
fn reflection_at_far_edge() {
    let mut sim = Simulation::new();
    let b = NBody::with_velocity(0, 791 * UNIT, 300 * UNIT, 500 * UNIT, 10 * UNIT, 2 * UNIT, 0);
    sim.add_body(b);
    sim.update_simulation(0);
    let bodies = sim.get_bodies();
    assert_eq!(bodies[0].x, 790 * UNIT);
    assert_eq!(bodies[0].vx, -2 * UNIT);
}

#[test]
fn create_body_rejects_bad_mass_and_radius() {
    let mut sim = Simulation::new();
    assert_eq!(
        sim.create_body(0, 100 * UNIT, 100 * UNIT, 0, 10 * UNIT),
        Err(SimError::Construction)
    );
    assert_eq!(
        sim.create_body(0, 100 * UNIT, 100 * UNIT, 500 * UNIT, -UNIT),
        Err(SimError::Construction)
    );
    assert!(sim.get_bodies().is_empty());
}

#[test]
fn create_body_appends_with_random_velocity() {
    let mut sim = Simulation::new();
    let b = sim
        .create_body(7, 100 * UNIT, 200 * UNIT, 500 * UNIT, 10 * UNIT)
        .expect("positive mass and radius");
    assert_eq!(b.id, 7);
    assert_eq!(b.x, 100 * UNIT);
    assert_eq!(b.y, 200 * UNIT);
    assert_eq!(b.mass, 500 * UNIT);
    assert_eq!(b.radius, 10 * UNIT);
    assert!(-UNIT <= b.vx && b.vx < UNIT);
    assert!(-UNIT <= b.vy && b.vy < UNIT);
    assert!(!b.is_center);
    assert_eq!(sim.get_bodies(), vec![b]);
}

#[test]
fn resize_does_not_touch_bodies() {
    let mut sim = Simulation::new();
    sim.create_bodies(4, 800 * UNIT, 600 * UNIT);
    let before = sim.get_bodies();
    sim.update_canvas_size(200 * UNIT, 200 * UNIT);
    assert_eq!(sim.get_bodies(), before);
    assert_eq!(sim.canvas_width, 200 * UNIT);
    assert_eq!(sim.canvas_height, 200 * UNIT);
}

#[test]
fn envelope_compares_squared_distance_to_linear_radii() {
    let a = body_at(0, 100, 100, 500, 10);
    let b = body_at(1, 102, 100, 500, 10);
    // squared distance (2 units at scale, squared) dwarfs the linear radii sum
    assert!(!a.in_aabb(&b, UNIT));
    // one fixed-point tick apart: squared distance 1 is positive and tiny
    let c = NBody::with_velocity(2, 100 * UNIT + 1, 100 * UNIT, 500 * UNIT, 10 * UNIT, 0, 0);
    assert!(a.in_aabb(&c, UNIT));
    // coincident bodies are excluded by the positive-distance guard
    let d = body_at(3, 100, 100, 500, 10);
    assert!(!a.in_aabb(&d, UNIT));
}

#[test]
fn default_canvas_is_800_by_600() {
    let sim = Simulation::new();
    assert_eq!(sim.canvas_width, 800 * UNIT);
    assert_eq!(sim.canvas_height, 600 * UNIT);
    assert!(sim.get_bodies().is_empty());
}
