//! Property-shaped tests: buffer shape, order independence, speed
//! bounds, degenerate worlds, and the pseudo-random generator.

use boids::boid::Boid;
use boids::rng::Lcg;
use boids::world::World;

fn flock_world(n: u32, seed: u64) -> World {
    World::new(
        800, 600, n, // width, height, agents
        50,   // avoid_factor 0.05
        40000, // visible_range 40.0
        50,   // matching_factor 0.05
        200,  // turn_factor 0.2
        2000, // min_speed 2.0
        6000, // max_speed 6.0
        5,    // centering_factor 0.005
        8000, // protected_range 8.0
        500,  // predator_turn_factor 0.5
        45000, // predator_range 45.0
        seed,
    )
}

#[test]
fn buffer_shape_always_twice_agent_count() {
    let mut w = flock_world(7, 21);
    assert_eq!(w.render_xy_len(), 14);
    assert_eq!(w.render_xy().len(), 14);
    for v in w.render_xy() {
        assert_eq!(*v, 0);
    }
    w.tick();
    assert_eq!(w.render_xy_len(), 14);
    w.set_predator_loc(1000, 1000);
    w.tick();
    assert_eq!(w.render_xy_len(), 14);
}

#[test]
fn buffer_mirrors_positions_after_tick() {
    let mut w = flock_world(9, 22);
    for _ in 0..3 {
        w.tick();
        let buf = w.render_xy().clone();
        for i in 0..9 {
            let b = w.boid(i);
            assert_eq!(buf[2 * i], b.x);
            assert_eq!(buf[2 * i + 1], b.y);
        }
    }
}

#[test]
fn zero_agents_world_ticks() {
    let mut w = flock_world(0, 23);
    w.tick();
    w.tick();
    assert_eq!(w.render_xy_len(), 0);
    assert!(w.render_xy().is_empty());
    assert_eq!(w.num_boids(), 0);
}

#[test]
fn zero_extent_world_ticks() {
    let mut w = World::new(0, 0, 3, 50, 5000, 0, 200, 0, 6000, 0, 2000, 500, 45000, 29);
    for i in 0..3 {
        let b = w.boid(i);
        assert_eq!(b.x, 0);
        assert_eq!(b.y, 0);
    }
    w.tick();
    assert_eq!(w.render_xy_len(), 6);
}

#[test]
fn order_independence_of_positions() {
    let mut w1 = flock_world(5, 31);
    let mut w2 = flock_world(5, 31);
    // Permute the storage order of the second world: rotate by two.
    let held: Vec<Boid> = (0..5).map(|i| w1.boid(i)).collect();
    for i in 0..5 {
        w2.set_boid(i, held[(i + 2) % 5]);
    }
    w1.tick();
    w2.tick();
    let mut p1: Vec<(i64, i64, i64, i64)> =
        (0..5).map(|i| w1.boid(i)).map(|b| (b.x, b.y, b.vx, b.vy)).collect();
    let mut p2: Vec<(i64, i64, i64, i64)> =
        (0..5).map(|i| w2.boid(i)).map(|b| (b.x, b.y, b.vx, b.vy)).collect();
    // The same slot moved with the agent; only the order differs.
    assert_eq!(p1[0], p2[3]);
    p1.sort();
    p2.sort();
    assert_eq!(p1, p2);
}

#[test]
fn speed_stays_at_most_max_after_ticks() {
    // min_speed 0 keeps every tick out of the upscale branch, whose
    // rounding near zero speed is coarser; the upper bound is then
    // exact for every agent and every tick.
    let mut w = World::new(
        800, 600, 30, 50, 40000, 50, 200, 0, 6000, 5, 8000, 500, 45000, 37,
    );
    w.set_predator_loc(400000, 300000);
    for _ in 0..6 {
        w.tick();
        for i in 0..30 {
            let b = w.boid(i);
            let sq = (b.vx as i128) * (b.vx as i128) + (b.vy as i128) * (b.vy as i128);
            assert!(sq <= 6000 * 6000);
        }
    }
}

#[test]
fn speed_stays_in_band_once_above_min() {
    // An agent whose speed starts inside [min, max] stays within the
    // proved band: at most max², and at least min² less the rounding
    // allowance of 6·max.
    let mut w = flock_world(1, 41);
    w.set_boid(0, Boid::new(400000, 300000, 3000, 1000));
    for _ in 0..8 {
        w.tick();
        let b = w.boid(0);
        let sq = (b.vx as i128) * (b.vx as i128) + (b.vy as i128) * (b.vy as i128);
        assert!(sq <= 6000 * 6000);
        assert!(sq >= 2000 * 2000 - 6 * 6000);
    }
}

#[test]
fn lcg_is_deterministic() {
    let mut a = Lcg::seeded(99);
    let mut b = Lcg::seeded(99);
    for _ in 0..10 {
        assert_eq!(a.next(), b.next());
    }
    let mut c = Lcg::seeded(100);
    assert_ne!(a.next(), c.next());
}

#[test]
fn lcg_below_stays_below() {
    let mut g = Lcg::seeded(7);
    for _ in 0..100 {
        let v = g.below(20001);
        assert!(v < 20001);
    }
}

#[test]
fn lcg_first_step_value() {
    // One step of the linear-congruential map from seed 1:
    // (6364136223846793005 + 1442695040888963407) mod 2^64.
    let mut g = Lcg::seeded(1);
    assert_eq!(g.next(), 7806831264735756412);
}

#[test]
fn accessors_report_construction() {
    let w = flock_world(3, 51);
    assert_eq!(w.width(), 800);
    assert_eq!(w.height(), 600);
    assert_eq!(w.num_boids(), 3);
    assert_eq!(w.params.avoid_factor, 50);
    assert_eq!(w.params.max_speed, 6000);
    assert_eq!(w.params.min_speed, 2000);
    assert!(w.predator.is_none());
}
