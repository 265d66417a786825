use gravsim::body::Body;
use gravsim::collision::handle_collision;
use gravsim::gravity::update_from_gravity;
use gravsim::index::maintain_sorted_entities_x;
use gravsim::motion::update_from_velocity;
use gravsim::sim::SimState;

fn body(x: i64, y: i64, vx: i64, vy: i64, mass: u32) -> Body {
    Body { x, y, vx, vy, mass }
}

#[test]
fn scenario_two_bodies_attract() {
    // Two bodies of mass 10, 100 length units apart, one second: each
    // gains speed 1/100^2 * 10 * 10 = 0.01 toward the other and moves
    // by that velocity times the elapsed second.
    let mut sim = SimState::setup(2, 100_000, 10);
    sim.step(1000);
    assert_eq!(sim.bodies[0].vx, 10);
    assert_eq!(sim.bodies[1].vx, -10);
    assert_eq!(sim.bodies[0].vy, 0);
    assert_eq!(sim.bodies[1].vy, 0);
    assert_eq!(sim.bodies[0].x, 10);
    assert_eq!(sim.bodies[1].x, 99_990);
}

#[test]
fn scenario_close_pair_reverses() {
    // Distance 5 < 10: the collision system negates both velocities
    // exactly, whatever they were.
    let mut bodies = vec![body(0, 0, 3, 4, 10), body(5_000, 0, -7, 2, 10)];
    handle_collision(&mut bodies, false);
    assert_eq!((bodies[0].vx, bodies[0].vy), (-3, -4));
    assert_eq!((bodies[1].vx, bodies[1].vy), (7, -2));
}

#[test]
fn pair_at_threshold_unchanged() {
    // Distance exactly 10 is not strictly below the threshold.
    let mut bodies = vec![body(0, 0, 3, 4, 10), body(10_000, 0, -7, 2, 10)];
    handle_collision(&mut bodies, false);
    assert_eq!((bodies[0].vx, bodies[0].vy), (3, 4));
    assert_eq!((bodies[1].vx, bodies[1].vy), (-7, 2));
}

#[test]
fn scenario_single_body_drifts() {
    // One body: no pairs, so gravity and collision do nothing, but the
    // integrator still moves it by velocity times elapsed time.
    let mut sim = SimState::setup(1, 0, 7);
    sim.bodies[0] = body(1_234, 5_678, 5_000, -2_000, 7);
    sim.step(2_000);
    assert_eq!(sim.bodies[0].x, 1_234 + 10_000);
    assert_eq!(sim.bodies[0].y, 5_678 - 4_000);
    assert_eq!(sim.bodies[0].vx, 5_000);
    assert_eq!(sim.bodies[0].vy, -2_000);
}

#[test]
fn scenario_paused_frame_changes_nothing() {
    // Toggle pause once, run a frame: no body moves or accelerates.
    let mut sim = SimState::setup(4, 20_000, 10);
    let before = sim.bodies.clone();
    sim.pause_game(true);
    sim.step(1000);
    assert!(sim.is_paused());
    assert_eq!(sim.bodies, before);
}

#[test]
fn pause_even_toggles_restore() {
    let mut sim = SimState::setup(2, 50_000, 10);
    assert!(!sim.is_paused());
    sim.pause_game(true);
    assert!(sim.is_paused());
    sim.pause_game(true);
    assert!(!sim.is_paused());
    // A held key is no edge and must not toggle.
    sim.pause_game(false);
    assert!(!sim.is_paused());
}

#[test]
fn paused_state_same_for_any_elapsed() {
    // When paused, the frame leaves the bodies identical no matter the
    // elapsed time or the configuration.
    let mut a = SimState::setup(3, 30_000, 10);
    let mut b = SimState::setup(3, 30_000, 10);
    a.pause_game(true);
    b.pause_game(true);
    a.step(1);
    b.step(60_000);
    assert_eq!(a.bodies, b.bodies);
}

#[test]
fn gravity_conserves_momentum_with_equal_masses() {
    // Three moving bodies of equal mass: the mass-weighted velocity
    // sum is the same before and after the gravity system.
    let mut bodies = vec![
        body(0, 0, 3, 4, 10),
        body(300_000, 40_000, 5, 6, 10),
        body(700_000, -25_000, 7, 8, 10),
    ];
    let px0: i64 = bodies.iter().map(|b| b.mass as i64 * b.vx).sum();
    let py0: i64 = bodies.iter().map(|b| b.mass as i64 * b.vy).sum();
    update_from_gravity(&mut bodies, false);
    let px: i64 = bodies.iter().map(|b| b.mass as i64 * b.vx).sum();
    let py: i64 = bodies.iter().map(|b| b.mass as i64 * b.vy).sum();
    assert_eq!(px, px0);
    assert_eq!(py, py0);
    // And something did happen: the closest pair accelerated inward.
    assert!(bodies[0].vx > 3);
    assert!(bodies[1].vx < 5);
}

#[test]
fn gravity_conserves_velocity_sum_not_momentum_with_unequal_masses() {
    // The pair deltas are equal and opposite in velocity, so the plain
    // velocity sum is conserved for any masses; the mass-weighted sum
    // is not when the masses differ.
    let mut bodies = vec![body(0, 0, 0, 0, 1_000), body(2_000, 0, 0, 0, 1)];
    update_from_gravity(&mut bodies, false);
    assert_eq!(bodies[0].vx + bodies[1].vx, 0);
    assert!(bodies[0].vx > 0);
    let px: i64 = bodies.iter().map(|b| b.mass as i64 * b.vx).sum();
    assert_ne!(px, 0);
}

#[test]
fn gravity_skips_coincident_pair() {
    // Two bodies at the same point exchange no force: the degenerate
    // pair contributes nothing instead of a non-finite value.
    let mut bodies = vec![body(500, 500, 9, -9, 10), body(500, 500, -1, 1, 10)];
    update_from_gravity(&mut bodies, false);
    assert_eq!((bodies[0].vx, bodies[0].vy), (9, -9));
    assert_eq!((bodies[1].vx, bodies[1].vy), (-1, 1));
}

#[test]
fn gravity_floors_tiny_separation() {
    // Half a length unit apart: the separation is floored to one unit,
    // so the delta is dx * m1 * m2 * SCALE^3 / SCALE^3 = 500 * 100.
    let mut bodies = vec![body(0, 0, 0, 0, 10), body(500, 0, 0, 0, 10)];
    update_from_gravity(&mut bodies, false);
    assert_eq!(bodies[0].vx, 50_000);
    assert_eq!(bodies[1].vx, -50_000);
}

#[test]
fn integration_truncates_toward_zero() {
    // -1500 ticks per second over one millisecond is -1.5 ticks, which
    // truncates to -1, mirroring the positive case.
    let mut bodies = vec![body(0, 0, -1_500, 1_500, 10)];
    update_from_velocity(&mut bodies, false, 1);
    assert_eq!(bodies[0].x, -1);
    assert_eq!(bodies[0].y, 1);
}

#[test]
fn integrator_uses_post_collision_velocity() {
    // In one frame a close pair first reverses, then moves with the
    // reversed velocity.
    let mut sim = SimState::setup(2, 5_000, 10);
    sim.bodies[0] = body(0, 0, 1_000, 0, 1);
    sim.bodies[1] = body(5_000, 0, -1_000, 0, 1);
    sim.step(1_000);
    // Gravity first: each gains 1/5^2 * 1 * 1 = 0.04 (40 ticks) toward
    // the other; collision then negates; integration moves by the
    // reversed velocity.
    assert_eq!(sim.bodies[0].vx, -1_040);
    assert_eq!(sim.bodies[1].vx, 1_040);
    assert_eq!(sim.bodies[0].x, -1_040);
    assert_eq!(sim.bodies[1].x, 5_000 + 1_040);
}

#[test]
fn sorted_index_orders_and_keeps_every_handle() {
    let bodies = vec![
        body(500, 0, 0, 0, 1),
        body(-200, 0, 0, 0, 1),
        body(300, 0, 0, 0, 1),
        body(-200, 10, 0, 0, 1),
        body(100, 0, 0, 0, 1),
    ];
    let mut index = Vec::new();
    maintain_sorted_entities_x(&bodies, &mut index);
    assert_eq!(index.len(), bodies.len());
    for w in index.windows(2) {
        assert!(w[0].key <= w[1].key);
    }
    let mut seen = vec![false; bodies.len()];
    for e in &index {
        assert!(!seen[e.id]);
        seen[e.id] = true;
        assert_eq!(e.key, bodies[e.id].x);
    }
    assert!(seen.iter().all(|s| *s));
    // The sort is stable: the two equal keys keep registry order.
    assert_eq!(index[0].id, 1);
    assert_eq!(index[1].id, 3);
}

#[test]
fn index_refreshes_after_motion() {
    // The x index reflects the positions the frame just produced.
    let mut sim = SimState::setup(3, 100_000, 10);
    sim.bodies[0] = body(0, 0, 250_000_000, 0, 10);
    sim.step(1_000);
    // Body 0 overtakes the others: 0 + 250000 units > 200 units.
    assert_eq!(sim.index_x[0].id, 1);
    assert_eq!(sim.index_x[1].id, 2);
    assert_eq!(sim.index_x[2].id, 0);
    assert_eq!(sim.index_x[2].key, sim.bodies[0].x);
}

#[test]
fn setup_places_bodies_on_axis() {
    let sim = SimState::setup(20, 100_000, 10);
    assert_eq!(sim.bodies.len(), 20);
    for (k, b) in sim.bodies.iter().enumerate() {
        assert_eq!(b.x, 100_000 * k as i64);
        assert_eq!(b.y, 0);
        assert_eq!(b.vx, 0);
        assert_eq!(b.vy, 0);
        assert_eq!(b.mass, 10);
    }
    assert!(!sim.is_paused());
    assert_eq!(sim.index_x.len(), 20);
    assert_eq!(sim.index_y.len(), 20);
    for (k, e) in sim.index_y.iter().enumerate() {
        assert_eq!(e.id, k);
        assert_eq!(e.key, 0);
    }
}

#[test]
fn double_negation_is_net_noop() {
    // The middle body is within threshold of both neighbours, so the
    // pair scan negates it twice and its velocity survives unchanged;
    // the outer pair sits at exactly 10 units and does not qualify.
    let mut bodies = vec![
        body(0, 0, 11, 12, 10),
        body(5_000, 0, 21, 22, 10),
        body(10_000, 0, 31, 32, 10),
    ];
    handle_collision(&mut bodies, false);
    assert_eq!((bodies[0].vx, bodies[0].vy), (-11, -12));
    assert_eq!((bodies[1].vx, bodies[1].vy), (21, 22));
    assert_eq!((bodies[2].vx, bodies[2].vy), (-31, -32));
}
