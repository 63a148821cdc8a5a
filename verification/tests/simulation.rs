//! Scenario tests for the flocking simulation, on exact fixed-point
//! values (scale 1000: the stored value 1000 is one world unit).

use boids::boid::Boid;
use boids::world::World;

/// A quiet world: no boundary nudge, no clamp pressure, no predator,
/// one pseudo-randomly placed agent per `n`.
fn quiet_world(n: u32, seed: u64) -> World {
    World::new(
        1000, 1000, n, // width, height, agents
        50,      // avoid_factor 0.05
        5000,    // visible_range 5.0
        0,       // matching_factor
        0,       // turn_factor
        0,       // min_speed
        1000000, // max_speed (never binds)
        0,       // centering_factor
        2000,    // protected_range 2.0
        500,     // predator_turn_factor 0.5
        45000,   // predator_range 45.0
        seed,
    )
}

#[test]
fn determinism_identical_runs() {
    let mut w1 = quiet_world(20, 42);
    let mut w2 = quiet_world(20, 42);
    for _ in 0..5 {
        w1.tick();
        w2.tick();
    }
    assert_eq!(w1.render_xy_len(), w2.render_xy_len());
    let b1 = w1.render_xy();
    let b2 = w2.render_xy();
    for i in 0..b1.len() {
        assert_eq!(b1[i], b2[i]);
    }
}

#[test]
fn different_seeds_differ() {
    let w1 = quiet_world(4, 1);
    let w2 = quiet_world(4, 2);
    let mut same = true;
    for i in 0..4 {
        if w1.boid(i) != w2.boid(i) {
            same = false;
        }
    }
    assert!(!same);
}

#[test]
fn spawn_within_bounds() {
    let w = quiet_world(50, 7);
    for i in 0..50 {
        let b = w.boid(i);
        assert!(0 <= b.x && b.x < 1000 * 1000);
        assert!(0 <= b.y && b.y < 1000 * 1000);
        assert!(-10000 <= b.vx && b.vx <= 10000);
        assert!(-10000 <= b.vy && b.vy <= 10000);
    }
}

#[test]
fn lone_agent_velocity_unchanged_at_center() {
    let mut w = quiet_world(1, 3);
    // Center of the world, away from every margin, speed within the
    // clamp bounds: nothing may touch the velocity.
    w.set_boid(0, Boid::new(500000, 500000, 3000, -2000));
    w.tick();
    let b = w.boid(0);
    assert_eq!(b.vx, 3000);
    assert_eq!(b.vy, -2000);
    assert_eq!(b.x, 503000);
    assert_eq!(b.y, 498000);
}

#[test]
fn boundary_nudge_low_edge() {
    let mut w = World::new(
        1000, 1000, 1, 0, 5000, 0, 700, 0, 1000000, 0, 2000, 500, 45000, 9,
    );
    // Margin is fifteen percent: 150 units. An agent at (100, 500) is
    // inside the low x margin only: vx gains turn_factor.
    w.set_boid(0, Boid::new(100000, 500000, 1000, 1000));
    w.tick();
    let b = w.boid(0);
    assert_eq!(b.vx, 1700);
    assert_eq!(b.vy, 1000);
}

#[test]
fn boundary_nudge_high_edge() {
    let mut w = World::new(
        1000, 1000, 1, 0, 5000, 0, 700, 0, 1000000, 0, 2000, 500, 45000, 9,
    );
    // An agent at (950, 500) is inside the high x margin only: vx
    // loses turn_factor.
    w.set_boid(0, Boid::new(950000, 500000, 1000, 1000));
    w.tick();
    let b = w.boid(0);
    assert_eq!(b.vx, 300);
    assert_eq!(b.vy, 1000);
}

#[test]
fn speed_clamped_down_exactly() {
    let mut w = World::new(
        1000, 1000, 1, 0, 5000, 0, 0, 0, 6000, 0, 2000, 500, 45000, 11,
    );
    // Speed 20 exceeds max 6 on one axis: the integer root is exact,
    // so the rescale is exact.
    w.set_boid(0, Boid::new(500000, 500000, 20000, 0));
    w.tick();
    let b = w.boid(0);
    assert_eq!(b.vx, 6000);
    assert_eq!(b.vy, 0);
    assert_eq!(b.x, 506000);
}

#[test]
fn speed_clamped_up_exactly() {
    let mut w = World::new(
        1000, 1000, 1, 0, 5000, 0, 0, 2000, 6000, 0, 2000, 500, 45000, 11,
    );
    // Speed 1 is below min 2 on one axis: rescaled up exactly.
    w.set_boid(0, Boid::new(500000, 500000, 0, -1000));
    w.tick();
    let b = w.boid(0);
    assert_eq!(b.vx, 0);
    assert_eq!(b.vy, -2000);
}

#[test]
fn zero_velocity_stays_zero() {
    let mut w = World::new(
        1000, 1000, 1, 0, 5000, 0, 0, 2000, 6000, 0, 2000, 500, 45000, 11,
    );
    // Exact zero speed skips the rescale instead of dividing by zero.
    w.set_boid(0, Boid::new(500000, 500000, 0, 0));
    w.tick();
    let b = w.boid(0);
    assert_eq!(b.vx, 0);
    assert_eq!(b.vy, 0);
    assert_eq!(b.x, 500000);
    assert_eq!(b.y, 500000);
}

#[test]
fn predator_pushes_by_fixed_magnitude() {
    // The same agent with and without a predator ten units below it:
    // the only difference after one tick is vy, lower by exactly
    // predator_turn_factor.
    let mut with = quiet_world(1, 5);
    let mut without = quiet_world(1, 5);
    with.set_boid(0, Boid::new(100000, 100000, 1500, 1500));
    without.set_boid(0, Boid::new(100000, 100000, 1500, 1500));
    with.set_predator_loc(100000, 110000);
    with.tick();
    without.tick();
    let bw = with.boid(0);
    let bo = without.boid(0);
    assert_eq!(bw.vx, bo.vx);
    assert_eq!(bw.vy, bo.vy - 500);
}

#[test]
fn predator_out_of_range_is_ignored() {
    let mut with = quiet_world(1, 5);
    let mut without = quiet_world(1, 5);
    with.set_boid(0, Boid::new(100000, 100000, 1500, 1500));
    without.set_boid(0, Boid::new(100000, 100000, 1500, 1500));
    // Fifty units away exceeds the 45-unit predator range.
    with.set_predator_loc(100000, 150000);
    with.tick();
    without.tick();
    assert_eq!(with.boid(0), without.boid(0));
}

#[test]
fn predator_moves_on_second_set() {
    let mut w = quiet_world(1, 5);
    w.set_boid(0, Boid::new(100000, 100000, 1500, 1500));
    w.set_predator_loc(0, 0);
    // Far away first, then right below: the second call moves the
    // predator rather than being ignored.
    w.set_predator_loc(100000, 110000);
    let mut without = quiet_world(1, 5);
    without.set_boid(0, Boid::new(100000, 100000, 1500, 1500));
    w.tick();
    without.tick();
    assert_eq!(w.boid(0).vy, without.boid(0).vy - 500);
}

#[test]
fn symmetric_separation_two_agents() {
    let mut w = quiet_world(2, 13);
    // Half a unit apart on x, well inside the protected range of 2.
    w.set_boid(0, Boid::new(100000, 100000, 1000, 0));
    w.set_boid(1, Boid::new(100500, 100000, 1000, 0));
    w.tick();
    let a = w.boid(0);
    let b = w.boid(1);
    // close_dx for agent 0 is -500, times avoid_factor 0.05: -25.
    assert_eq!(a.vx, 1000 - 25);
    assert_eq!(b.vx, 1000 + 25);
    assert_eq!(a.vy, 0);
    assert_eq!(b.vy, 0);
}

#[test]
fn alignment_and_cohesion_pool() {
    // Two agents four units apart: outside the protected range (2),
    // inside the visible range (5). Alignment moves each velocity
    // toward the other's; cohesion moves each toward the other.
    let mut w = World::new(
        1000, 1000, 2, 0, 5000, 100, 0, 0, 1000000, 200, 2000, 500, 45000, 17,
    );
    w.set_boid(0, Boid::new(100000, 100000, 1000, 0));
    w.set_boid(1, Boid::new(104000, 100000, 3000, 0));
    w.tick();
    let a = w.boid(0);
    let b = w.boid(1);
    // Agent 0: matching (3000-1000)*0.1 = 200; centering (104000-100000)*0.2 = 800.
    assert_eq!(a.vx, 1000 + 200 + 800);
    // Agent 1: matching (1000-3000)*0.1 = -200; centering (100000-104000)*0.2 = -800.
    assert_eq!(b.vx, 3000 - 200 - 800);
    assert_eq!(a.vy, 0);
    assert_eq!(b.vy, 0);
}

#[test]
fn update_avoid_factor_changes_separation() {
    let mut w = quiet_world(2, 13);
    w.set_boid(0, Boid::new(100000, 100000, 1000, 0));
    w.set_boid(1, Boid::new(100500, 100000, 1000, 0));
    // Double the separation gain: the push doubles.
    w.update_avoid_factor(100);
    w.tick();
    assert_eq!(w.boid(0).vx, 1000 - 50);
    assert_eq!(w.boid(1).vx, 1000 + 50);
}

#[test]
fn update_protected_range_disables_separation() {
    let mut w = quiet_world(2, 13);
    w.set_boid(0, Boid::new(100000, 100000, 1000, 0));
    w.set_boid(1, Boid::new(100500, 100000, 1000, 0));
    // Shrink the protected range below the half-unit gap; with
    // matching and centering at zero the pool changes nothing either.
    w.update_protected_range(400);
    w.tick();
    assert_eq!(w.boid(0).vx, 1000);
    assert_eq!(w.boid(1).vx, 1000);
}

#[test]
fn update_centering_factor_takes_effect() {
    let mut w = World::new(
        1000, 1000, 2, 0, 5000, 0, 0, 0, 1000000, 0, 2000, 500, 45000, 17,
    );
    w.set_boid(0, Boid::new(100000, 100000, 1000, 0));
    w.set_boid(1, Boid::new(104000, 100000, 1000, 0));
    w.update_centering_factor(200);
    w.tick();
    assert_eq!(w.boid(0).vx, 1000 + 800);
    assert_eq!(w.boid(1).vx, 1000 - 800);
}

#[test]
fn speed_upscale_near_zero_is_coarse_but_bounded() {
    let mut w = World::new(
        1000, 1000, 1, 0, 5000, 0, 0, 1000, 2000, 0, 2000, 500, 45000, 11,
    );
    // A nearly-zero diagonal velocity: the rounded-down integer speed
    // of (1, 1) is 1, so each axis is scaled straight to min_speed.
    // The squared result may exceed min_speed^2, but stays within the
    // proved factor of three.
    w.set_boid(0, Boid::new(500000, 500000, 1, 1));
    w.tick();
    let b = w.boid(0);
    assert_eq!(b.vx, 1000);
    assert_eq!(b.vy, 1000);
    let sq = (b.vx as i128) * (b.vx as i128) + (b.vy as i128) * (b.vy as i128);
    assert!(sq <= 3 * 1000 * 1000);
    assert!(sq >= 1000 * 1000 - 4 * 1000);
}
