//! The agent: its state, and the per-tick steering update.
//!
//! [`spec_update`] is the mathematical definition of one agent update;
//! [`Boid::update`] is the executable that provably computes it. The
//! pipeline runs, in this order: neighbor scan, predator push,
//! alignment and cohesion, boundary nudge, separation, speed clamp,
//! integration. Every step after the scan feeds the partially updated
//! velocity into the next, so the order is part of the contract.

use vstd::prelude::*;
use crate::fixed::{
    tdiv, sabs, isqrt, isqrt_up, tdiv_i128, isqrt_u128,
    lemma_isqrt_up_bounds, lemma_tdiv_bound,
    SCALE, COORD_MAX, PARAM_MAX, VEL_RAW_MAX, AGENTS_MAX, DIM_MAX,
};
use crate::params::WorldParams;

verus! {

/// A flocking agent: position and velocity, in fixed-point coordinates.
#[derive(Clone, Copy, PartialEq, Eq, Structural, Debug)]
pub struct Boid {
    /// Horizontal position.
    pub x: i64,
    /// Vertical position.
    pub y: i64,
    /// Horizontal velocity, applied once per tick.
    pub vx: i64,
    /// Vertical velocity, applied once per tick.
    pub vy: i64,
}

/// The repulsion point agents steer away from. It has no velocity and
/// never moves on its own.
#[derive(Clone, Copy, PartialEq, Eq, Structural, Debug)]
pub struct Predator {
    /// Horizontal position.
    pub x: i64,
    /// Vertical position.
    pub y: i64,
}

impl Predator {
    /// A predator at the given position.
    pub fn new(x: i64, y: i64) -> (r: Predator)
        ensures
            r == (Predator { x, y }),
    {
        Predator { x, y }
    }

    /// Position within the coordinate bound.
    pub open spec fn wf(self) -> bool {
        &&& -COORD_MAX <= self.x <= COORD_MAX
        &&& -COORD_MAX <= self.y <= COORD_MAX
    }
}

impl Boid {
    /// An agent with the given position and velocity; construction is
    /// the one place a speed outside the clamp bounds can be set.
    pub fn new(x: i64, y: i64, vx: i64, vy: i64) -> (r: Boid)
        ensures
            r == (Boid { x, y, vx, vy }),
    {
        Boid { x, y, vx, vy }
    }

    /// Position within the coordinate bound and velocity within the
    /// parameter bound; every update preserves this.
    pub open spec fn wf(self) -> bool {
        &&& -COORD_MAX <= self.x <= COORD_MAX
        &&& -COORD_MAX <= self.y <= COORD_MAX
        &&& -PARAM_MAX <= self.vx <= PARAM_MAX
        &&& -PARAM_MAX <= self.vy <= PARAM_MAX
    }
}

/// The accumulators a neighbor scan produces: the separation sum, the
/// alignment/cohesion pools and the pool size.
pub ghost struct ScanSums {
    /// Sum of displacements away from neighbors inside the protected
    /// range.
    pub close_dx: int,
    /// Vertical counterpart of `close_dx`.
    pub close_dy: int,
    /// Sum of the velocities of the visible-range pool.
    pub vx_sum: int,
    /// Vertical counterpart of `vx_sum`.
    pub vy_sum: int,
    /// Sum of the positions of the visible-range pool.
    pub x_sum: int,
    /// Vertical counterpart of `x_sum`.
    pub y_sum: int,
    /// Size of the visible-range pool.
    pub count: int,
}

/// The empty scan: what a scan over no neighbors yields.
pub open spec fn scan_init() -> ScanSums {
    ScanSums { close_dx: 0, close_dy: 0, vx_sum: 0, vy_sum: 0, x_sum: 0, y_sum: 0, count: 0 }
}

/// One neighbor's contribution to the scan of agent `b`: an exact
/// self-match is skipped, a neighbor out of visible range on either
/// axis is skipped, one inside the protected range feeds the
/// separation sum, and one inside the visible range (by squared
/// distance) feeds the alignment/cohesion pool.
pub open spec fn scan_step(b: Boid, o: Boid, p: WorldParams, acc: ScanSums) -> ScanSums {
    let dx = b.x - o.x;
    let dy = b.y - o.y;
    if dx == 0 && dy == 0 {
        acc
    } else if sabs(dx) < p.visible_range && sabs(dy) < p.visible_range {
        let sq = dx * dx + dy * dy;
        if sq < p.protected_range * p.protected_range {
            ScanSums { close_dx: acc.close_dx + dx, close_dy: acc.close_dy + dy, ..acc }
        } else if sq < p.visible_range * p.visible_range {
            ScanSums {
                vx_sum: acc.vx_sum + o.vx,
                vy_sum: acc.vy_sum + o.vy,
                x_sum: acc.x_sum + o.x,
                y_sum: acc.y_sum + o.y,
                count: acc.count + 1,
                ..acc
            }
        } else {
            acc
        }
    } else {
        acc
    }
}

/// The scan step of agent `b` as a fold operator.
pub open spec fn scan_fn(b: Boid, p: WorldParams) -> spec_fn(Boid, ScanSums) -> ScanSums {
    |o: Boid, acc: ScanSums| scan_step(b, o, p, acc)
}

/// The scan of agent `b` over a snapshot: the fold of every snapshot
/// entry's contribution, starting from the empty scan.
pub open spec fn spec_scan(b: Boid, others: Seq<Boid>, p: WorldParams) -> ScanSums {
    others.fold_right(scan_fn(b, p), scan_init())
}

/// The predator reaction applied to a velocity: inside the predator
/// range (on both axes and by squared distance), each axis gets one
/// fixed-magnitude push away from the predator, by sign alone.
pub open spec fn spec_predator_push(
    x: int,
    y: int,
    vx: int,
    vy: int,
    predator: Option<Predator>,
    p: WorldParams,
) -> (int, int) {
    match predator {
        Option::None => (vx, vy),
        Option::Some(pr) => {
            let dx = x - pr.x;
            let dy = y - pr.y;
            if sabs(dx) < p.predator_range && sabs(dy) < p.predator_range
                && dx * dx + dy * dy < p.predator_range * p.predator_range {
                let vx1 = if dx > 0 {
                    vx + p.predator_turn_factor
                } else if dx < 0 {
                    vx - p.predator_turn_factor
                } else {
                    vx
                };
                let vy1 = if dy > 0 {
                    vy + p.predator_turn_factor
                } else if dy < 0 {
                    vy - p.predator_turn_factor
                } else {
                    vy
                };
                (vx1, vy1)
            } else {
                (vx, vy)
            }
        },
    }
}

/// Alignment and cohesion: when the pool is non-empty, move the
/// velocity a `matching_factor` fraction toward the average pool
/// velocity, then a `centering_factor` fraction toward the average
/// pool position.
pub open spec fn spec_flock_pull(
    x: int,
    y: int,
    vx: int,
    vy: int,
    sums: ScanSums,
    p: WorldParams,
) -> (int, int) {
    if sums.count > 0 {
        let xvel_avg = tdiv(sums.vx_sum, sums.count);
        let yvel_avg = tdiv(sums.vy_sum, sums.count);
        let xpos_avg = tdiv(sums.x_sum, sums.count);
        let ypos_avg = tdiv(sums.y_sum, sums.count);
        let vx1 = vx + tdiv((xvel_avg - vx) * p.matching_factor, SCALE as int);
        let vy1 = vy + tdiv((yvel_avg - vy) * p.matching_factor, SCALE as int);
        let vx2 = vx1 + tdiv((xpos_avg - x) * p.centering_factor, SCALE as int);
        let vy2 = vy1 + tdiv((ypos_avg - y) * p.centering_factor, SCALE as int);
        (vx2, vy2)
    } else {
        (vx, vy)
    }
}

/// The boundary margin: fifteen percent of the extent.
pub open spec fn spec_margin(extent: int) -> int {
    tdiv(extent * 15, 100)
}

/// Boundary avoidance: inside the margin of a low edge the matching
/// velocity component gains `turn_factor`; inside the margin of a high
/// edge it loses it. A fixed-increment nudge, not proportional to
/// penetration.
pub open spec fn spec_boundary_nudge(
    x: int,
    y: int,
    vx: int,
    vy: int,
    w: int,
    h: int,
    p: WorldParams,
) -> (int, int) {
    let mx = spec_margin(w);
    let my = spec_margin(h);
    let vx1 = if x < mx { vx + p.turn_factor } else { vx };
    let vy1 = if y < my { vy + p.turn_factor } else { vy };
    let vx2 = if x > w - mx { vx1 - p.turn_factor } else { vx1 };
    let vy2 = if y > h - my { vy1 - p.turn_factor } else { vy1 };
    (vx2, vy2)
}

/// Separation: the accumulated displacement sum, scaled by
/// `avoid_factor`, is added unnormalized — a larger crowd pushes
/// proportionally harder.
pub open spec fn spec_separation(
    vx: int,
    vy: int,
    sums: ScanSums,
    p: WorldParams,
) -> (int, int) {
    (
        vx + tdiv(sums.close_dx * p.avoid_factor, SCALE as int),
        vy + tdiv(sums.close_dy * p.avoid_factor, SCALE as int),
    )
}

/// The speed clamp. A velocity of exact zero magnitude is left alone
/// (the division it would take is undefined); a speed above
/// `max_speed` is rescaled down by the rounded-up integer speed, one
/// below `min_speed` is rescaled up by the rounded-down one. The
/// comparisons are exact (made on squares); the rescaling carries the
/// rounding of integer division.
pub open spec fn spec_clamp_speed(vx: int, vy: int, p: WorldParams) -> (int, int) {
    let sq = vx * vx + vy * vy;
    if sq == 0 {
        (vx, vy)
    } else if p.max_speed < 0 || sq > p.max_speed * p.max_speed {
        let c = isqrt_up(sq);
        (tdiv(vx * p.max_speed, c), tdiv(vy * p.max_speed, c))
    } else if p.min_speed > 0 && sq < p.min_speed * p.min_speed {
        let f = isqrt(sq);
        (tdiv(vx * p.min_speed, f), tdiv(vy * p.min_speed, f))
    } else {
        (vx, vy)
    }
}

/// A coordinate saturated into the world's coordinate bound.
pub open spec fn spec_saturate(n: int) -> int {
    if n > COORD_MAX {
        COORD_MAX as int
    } else if n < -COORD_MAX {
        -COORD_MAX as int
    } else {
        n
    }
}

/// One whole agent update: scan, predator push, alignment and
/// cohesion, boundary nudge, separation, speed clamp, then explicit
/// Euler integration of the clamped velocity, saturating at the
/// coordinate bound.
pub open spec fn spec_update(
    b: Boid,
    others: Seq<Boid>,
    predator: Option<Predator>,
    p: WorldParams,
    w: int,
    h: int,
) -> Boid {
    let sums = spec_scan(b, others, p);
    let (vx1, vy1) = spec_predator_push(b.x as int, b.y as int, b.vx as int, b.vy as int, predator, p);
    let (vx2, vy2) = spec_flock_pull(b.x as int, b.y as int, vx1, vy1, sums, p);
    let (vx3, vy3) = spec_boundary_nudge(b.x as int, b.y as int, vx2, vy2, w, h, p);
    let (vx4, vy4) = spec_separation(vx3, vy3, sums, p);
    let (vx5, vy5) = spec_clamp_speed(vx4, vy4, p);
    Boid {
        x: spec_saturate(b.x + vx5) as i64,
        y: spec_saturate(b.y + vy5) as i64,
        vx: vx5 as i64,
        vy: vy5 as i64,
    }
}

/// The fixed-point extent of a world dimension.
pub open spec fn dim_fp(d: u32) -> int {
    d as int * SCALE
}

/// The optional predator, well-formed when present.
pub open spec fn predator_wf(p: Option<Predator>) -> bool {
    match p {
        Option::None => true,
        Option::Some(pr) => pr.wf(),
    }
}


/// The running accumulators of a neighbor scan, in machine integers.
pub struct ScanAcc {
    /// Separation sum, horizontal.
    pub close_dx: i64,
    /// Separation sum, vertical.
    pub close_dy: i64,
    /// Pool velocity sum, horizontal.
    pub xvel_sum: i64,
    /// Pool velocity sum, vertical.
    pub yvel_sum: i64,
    /// Pool position sum, horizontal.
    pub xpos_sum: i64,
    /// Pool position sum, vertical.
    pub ypos_sum: i64,
    /// Pool size.
    pub neighbors: usize,
}

impl ScanAcc {
    /// The mathematical value of the accumulators.
    pub open spec fn sums(self) -> ScanSums {
        ScanSums {
            close_dx: self.close_dx as int,
            close_dy: self.close_dy as int,
            vx_sum: self.xvel_sum as int,
            vy_sum: self.yvel_sum as int,
            x_sum: self.xpos_sum as int,
            y_sum: self.ypos_sum as int,
            count: self.neighbors as int,
        }
    }
}

/// The neighbor scan of agent `b` over a snapshot, computing exactly
/// [`spec_scan`]. The snapshot is folded from its last entry to its
/// first; integer sums do not depend on the order.
pub fn scan_neighbors(b: Boid, other_boids: &Vec<Boid>, params: &WorldParams) -> (r: ScanAcc)
    requires
        b.wf(),
        forall|i: int| 0 <= i < other_boids@.len() ==> (#[trigger] other_boids@[i]).wf(),
        other_boids@.len() <= AGENTS_MAX,
        params.wf(),
    ensures
        r.sums() == spec_scan(b, other_boids@, *params),
        sabs(r.close_dx as int) <= other_boids@.len() * PARAM_MAX,
        sabs(r.close_dy as int) <= other_boids@.len() * PARAM_MAX,
        r.neighbors <= other_boids@.len(),
        sabs(r.xvel_sum as int) <= r.neighbors * PARAM_MAX,
        sabs(r.yvel_sum as int) <= r.neighbors * PARAM_MAX,
        sabs(r.xpos_sum as int) <= r.neighbors * COORD_MAX,
        sabs(r.ypos_sum as int) <= r.neighbors * COORD_MAX,
{
    let ghost others = other_boids@;
    let ghost p = *params;
    let ghost f = scan_fn(b, p);
    let n = other_boids.len();
    let mut i: usize = n;
    let mut acc = ScanAcc {
        close_dx: 0,
        close_dy: 0,
        xvel_sum: 0,
        yvel_sum: 0,
        xpos_sum: 0,
        ypos_sum: 0,
        neighbors: 0,
    };
    proof {
        assert(others.subrange(0, n as int) =~= others);
    }
    while i > 0
        invariant
            0 <= i <= n,
            n == others.len(),
            n <= AGENTS_MAX,
            b.wf(),
            p.wf(),
            p == *params,
            forall|j: int| 0 <= j < others.len() ==> (#[trigger] others[j]).wf(),
            others == other_boids@,
            f == scan_fn(b, p),
            spec_scan(b, others, p) == others.subrange(0, i as int).fold_right(f, acc.sums()),
            sabs(acc.close_dx as int) <= (n - i) * PARAM_MAX,
            sabs(acc.close_dy as int) <= (n - i) * PARAM_MAX,
            acc.neighbors <= n - i,
            sabs(acc.xvel_sum as int) <= acc.neighbors * PARAM_MAX,
            sabs(acc.yvel_sum as int) <= acc.neighbors * PARAM_MAX,
            sabs(acc.xpos_sum as int) <= acc.neighbors * COORD_MAX,
            sabs(acc.ypos_sum as int) <= acc.neighbors * COORD_MAX,
        decreases i,
    {
        let ghost acc_old = acc.sums();
        i = i - 1;
        let o = other_boids[i];
        let dx = b.x - o.x;
        let dy = b.y - o.y;
        if !(dx == 0 && dy == 0) {
            let adx = if dx < 0 { -dx } else { dx };
            let ady = if dy < 0 { -dy } else { dy };
            if adx < params.visible_range && ady < params.visible_range {
                proof {
                    assert((dx as i128) * (dx as i128) <= 4000000000000000000000000int
                        && (dx as i128) * (dx as i128) >= 0) by (nonlinear_arith)
                        requires
                            -2000000000000 <= dx as int <= 2000000000000,
                    {
                    }
                    assert((dy as i128) * (dy as i128) <= 4000000000000000000000000int
                        && (dy as i128) * (dy as i128) >= 0) by (nonlinear_arith)
                        requires
                            -2000000000000 <= dy as int <= 2000000000000,
                    {
                    }
                    assert(0 <= (params.protected_range as i128) * (params.protected_range as i128)
                        <= 1000000000000int) by (nonlinear_arith)
                        requires
                            -PARAM_MAX <= params.protected_range as int <= PARAM_MAX,
                    {
                    }
                    assert(0 <= (params.visible_range as i128) * (params.visible_range as i128)
                        <= 1000000000000int) by (nonlinear_arith)
                        requires
                            -PARAM_MAX <= params.visible_range as int <= PARAM_MAX,
                    {
                    }
                }
                let sq: i128 = (dx as i128) * (dx as i128) + (dy as i128) * (dy as i128);
                let pr = params.protected_range;
                let vr = params.visible_range;
                if sq < (pr as i128) * (pr as i128) {
                    acc.close_dx = acc.close_dx + dx;
                    acc.close_dy = acc.close_dy + dy;
                } else if sq < (vr as i128) * (vr as i128) {
                    acc.xvel_sum = acc.xvel_sum + o.vx;
                    acc.yvel_sum = acc.yvel_sum + o.vy;
                    acc.xpos_sum = acc.xpos_sum + o.x;
                    acc.ypos_sum = acc.ypos_sum + o.y;
                    acc.neighbors = acc.neighbors + 1;
                }
            }
        }
        proof {
            assert(acc.sums() == scan_step(b, others[i as int], p, acc_old));
            assert(others.subrange(0, i as int + 1).drop_last() =~= others.subrange(0, i as int));
            assert(others.subrange(0, i as int + 1).last() == others[i as int]);
            assert(others.subrange(0, i as int + 1).fold_right(f, acc_old)
                == others.subrange(0, i as int).fold_right(f, acc.sums()));
        }
    }
    proof {
        assert(others.subrange(0, 0) =~= Seq::<Boid>::empty());
    }
    acc
}

/// The speed clamp, computing exactly [`spec_clamp_speed`] and
/// restoring the well-formed velocity bound.
pub fn clamp_speed(vx: i64, vy: i64, params: &WorldParams) -> (r: (i64, i64))
    requires
        params.wf(),
        sabs(vx as int) <= VEL_RAW_MAX,
        sabs(vy as int) <= VEL_RAW_MAX,
    ensures
        (r.0 as int, r.1 as int) == spec_clamp_speed(vx as int, vy as int, *params),
        sabs(r.0 as int) <= PARAM_MAX,
        sabs(r.1 as int) <= PARAM_MAX,
{
    proof {
        assert((vx as i128) * (vx as i128) >= 0
            && (vx as i128) * (vx as i128) <= 16000000000000000000000000000000int)
            by (nonlinear_arith)
            requires
                -VEL_RAW_MAX <= vx as int <= VEL_RAW_MAX,
        {
        }
        assert((vy as i128) * (vy as i128) >= 0
            && (vy as i128) * (vy as i128) <= 16000000000000000000000000000000int)
            by (nonlinear_arith)
            requires
                -VEL_RAW_MAX <= vy as int <= VEL_RAW_MAX,
        {
        }
    }
    let sq: i128 = (vx as i128) * (vx as i128) + (vy as i128) * (vy as i128);
    let mut nvx: i64 = vx;
    let mut nvy: i64 = vy;
    if sq != 0 {
        let maxs = params.max_speed;
        let mins = params.min_speed;
        proof {
            assert(0 <= (maxs as i128) * (maxs as i128) <= 1000000000000int) by (nonlinear_arith)
                requires
                    -PARAM_MAX <= maxs as int <= PARAM_MAX,
            {
            }
            assert(0 <= (mins as i128) * (mins as i128) <= 1000000000000int) by (nonlinear_arith)
                requires
                    -PARAM_MAX <= mins as int <= PARAM_MAX,
            {
            }
        }
        if maxs < 0 || sq > (maxs as i128) * (maxs as i128) {
            let r = isqrt_u128(sq as u128);
            proof {
                assert(r as int <= 10000000000000000int) by (nonlinear_arith)
                    requires
                        (r as int) * (r as int) <= sq as int,
                        sq as int <= 32000000000000000000000000000000,
                        r as int >= 0,
                {
                }
            }
            let c: i128 = if r as u128 * r as u128 == sq as u128 {
                r as i128
            } else {
                r as i128 + 1
            };
            proof {
                lemma_isqrt_up_bounds(sq as int);
                assert(c as int == isqrt_up(sq as int));
                assert(sabs(vx as int) <= c as int && sabs(vy as int) <= c as int)
                    by (nonlinear_arith)
                    requires
                        (vx as int) * (vx as int) + (vy as int) * (vy as int) <= (c as int) * (
                        c as int),
                        c as int >= 1,
                {
                }
                assert(-(sabs(maxs as int) * (c as int)) <= (vx as int) * (maxs as int)
                    <= sabs(maxs as int) * (c as int)) by (nonlinear_arith)
                    requires
                        sabs(vx as int) <= c as int,
                        c as int >= 1,
                {
                }
                assert(-(sabs(maxs as int) * (c as int)) <= (vy as int) * (maxs as int)
                    <= sabs(maxs as int) * (c as int)) by (nonlinear_arith)
                    requires
                        sabs(vy as int) <= c as int,
                        c as int >= 1,
                {
                }
                lemma_tdiv_bound((vx as int) * (maxs as int), c as int, sabs(maxs as int));
                lemma_tdiv_bound((vy as int) * (maxs as int), c as int, sabs(maxs as int));
                assert(-20000000000000000000000int <= (vx as int) * (maxs as int)
                    <= 20000000000000000000000int) by (nonlinear_arith)
                    requires
                        sabs(vx as int) <= c as int,
                        c as int <= 10000000000000001,
                        sabs(maxs as int) <= PARAM_MAX,
                {
                }
                assert(-20000000000000000000000int <= (vy as int) * (maxs as int)
                    <= 20000000000000000000000int) by (nonlinear_arith)
                    requires
                        sabs(vy as int) <= c as int,
                        c as int <= 10000000000000001,
                        sabs(maxs as int) <= PARAM_MAX,
                {
                }
            }
            nvx = tdiv_i128((vx as i128) * (maxs as i128), c) as i64;
            nvy = tdiv_i128((vy as i128) * (maxs as i128), c) as i64;
        } else if mins > 0 && sq < (mins as i128) * (mins as i128) {
            let r = isqrt_u128(sq as u128);
            proof {
                assert(r as int <= 10000000000000000int) by (nonlinear_arith)
                    requires
                        (r as int) * (r as int) <= sq as int,
                        sq as int <= 32000000000000000000000000000000,
                        r as int >= 0,
                {
                }
            }
            let fl: i128 = r as i128;
            proof {
                assert(fl as int == isqrt(sq as int));
                assert(fl as int >= 1) by (nonlinear_arith)
                    requires
                        (fl as int + 1) * (fl as int + 1) > sq as int,
                        sq as int >= 1,
                        fl as int >= 0,
                {
                }
                assert(sabs(vx as int) <= fl as int && sabs(vy as int) <= fl as int)
                    by (nonlinear_arith)
                    requires
                        (vx as int) * (vx as int) + (vy as int) * (vy as int) < (fl as int + 1) * (
                        fl as int + 1),
                        fl as int >= 1,
                {
                }
                assert(-(sabs(mins as int) * (fl as int)) <= (vx as int) * (mins as int)
                    <= sabs(mins as int) * (fl as int)) by (nonlinear_arith)
                    requires
                        sabs(vx as int) <= fl as int,
                        fl as int >= 1,
                {
                }
                assert(-(sabs(mins as int) * (fl as int)) <= (vy as int) * (mins as int)
                    <= sabs(mins as int) * (fl as int)) by (nonlinear_arith)
                    requires
                        sabs(vy as int) <= fl as int,
                        fl as int >= 1,
                {
                }
                lemma_tdiv_bound((vx as int) * (mins as int), fl as int, sabs(mins as int));
                lemma_tdiv_bound((vy as int) * (mins as int), fl as int, sabs(mins as int));
                assert(-20000000000000000000000int <= (vx as int) * (mins as int)
                    <= 20000000000000000000000int) by (nonlinear_arith)
                    requires
                        sabs(vx as int) <= fl as int,
                        fl as int <= 10000000000000000,
                        sabs(mins as int) <= PARAM_MAX,
                {
                }
                assert(-20000000000000000000000int <= (vy as int) * (mins as int)
                    <= 20000000000000000000000int) by (nonlinear_arith)
                    requires
                        sabs(vy as int) <= fl as int,
                        fl as int <= 10000000000000000,
                        sabs(mins as int) <= PARAM_MAX,
                {
                }
            }
            nvx = tdiv_i128((vx as i128) * (mins as i128), fl) as i64;
            nvy = tdiv_i128((vy as i128) * (mins as i128), fl) as i64;
        } else {
            proof {
                assert(sabs(vx as int) <= PARAM_MAX && sabs(vy as int) <= PARAM_MAX)
                    by (nonlinear_arith)
                    requires
                        (vx as int) * (vx as int) + (vy as int) * (vy as int) <= PARAM_MAX
                            * PARAM_MAX,
                {
                }
            }
        }
    } else {
        proof {
            assert(vx as int == 0 && vy as int == 0) by (nonlinear_arith)
                requires
                    (vx as int) * (vx as int) + (vy as int) * (vy as int) == 0,
            {
            }
        }
    }
    (nvx, nvy)
}

impl Boid {
    /// Advances this agent one tick against an immutable snapshot of
    /// the whole flock, computing exactly [`spec_update`]. The
    /// snapshot must be independent of the agent being mutated; the
    /// agent skips its own snapshot entry through the exact
    /// self-match test.
    #[verifier::rlimit(100)]
    pub fn update(
        &mut self,
        other_boids: &Vec<Boid>,
        width: u32,
        height: u32,
        predator: &Option<Predator>,
        params: &WorldParams,
    )
        requires
            old(self).wf(),
            forall|i: int|
                0 <= i < other_boids@.len() ==> (#[trigger] other_boids@[i]).wf(),
            other_boids@.len() <= AGENTS_MAX,
            params.wf(),
            predator_wf(*predator),
            width <= DIM_MAX,
            height <= DIM_MAX,
        ensures
            *final(self) == spec_update(
                *old(self),
                other_boids@,
                *predator,
                *params,
                dim_fp(width),
                dim_fp(height),
            ),
            final(self).wf(),
    {
        let ghost b0 = *old(self);
        let ghost others = other_boids@;
        let ghost p = *params;
        let sx = self.x;
        let sy = self.y;

        let acc = scan_neighbors(*self, other_boids, params);
        let ghost sums = spec_scan(b0, others, p);
        proof {
            assert(sums == acc.sums());
        }

        // Predator reaction: a fixed-magnitude, sign-only push per
        // axis, not proportional to distance.
        let mut vx: i64 = self.vx;
        let mut vy: i64 = self.vy;
        match predator {
            Option::Some(pr) => {
                let dx = sx - pr.x;
                let dy = sy - pr.y;
                let adx = if dx < 0 { -dx } else { dx };
                let ady = if dy < 0 { -dy } else { dy };
                if adx < params.predator_range && ady < params.predator_range {
                    proof {
                        assert((dx as i128) * (dx as i128) <= 4000000000000000000000000int
                            && (dx as i128) * (dx as i128) >= 0) by (nonlinear_arith)
                            requires
                                -2000000000000 <= dx as int <= 2000000000000,
                        {
                        }
                        assert((dy as i128) * (dy as i128) <= 4000000000000000000000000int
                            && (dy as i128) * (dy as i128) >= 0) by (nonlinear_arith)
                            requires
                                -2000000000000 <= dy as int <= 2000000000000,
                        {
                        }
                        assert(0 <= (params.predator_range as i128) * (params.predator_range as i128)
                            <= 1000000000000int) by (nonlinear_arith)
                            requires
                                -PARAM_MAX <= params.predator_range as int <= PARAM_MAX,
                        {
                        }
                    }
                    let sq: i128 = (dx as i128) * (dx as i128) + (dy as i128) * (dy as i128);
                    let prr = params.predator_range;
                    if sq < (prr as i128) * (prr as i128) {
                        if dx > 0 {
                            vx = vx + params.predator_turn_factor;
                        } else if dx < 0 {
                            vx = vx - params.predator_turn_factor;
                        }
                        if dy > 0 {
                            vy = vy + params.predator_turn_factor;
                        } else if dy < 0 {
                            vy = vy - params.predator_turn_factor;
                        }
                    }
                }
            },
            Option::None => {},
        }
        let ghost pushed = spec_predator_push(
            b0.x as int,
            b0.y as int,
            b0.vx as int,
            b0.vy as int,
            *predator,
            p,
        );
        proof {
            assert(vx as int == pushed.0 && vy as int == pushed.1);
            assert(sabs(vx as int) <= 2 * PARAM_MAX && sabs(vy as int) <= 2 * PARAM_MAX);
        }

        // Alignment and cohesion against the pool averages.
        if acc.neighbors > 0 {
            let cnt: i128 = acc.neighbors as i128;
            proof {
                lemma_tdiv_bound(acc.xvel_sum as int, cnt as int, PARAM_MAX as int);
                lemma_tdiv_bound(acc.yvel_sum as int, cnt as int, PARAM_MAX as int);
                lemma_tdiv_bound(acc.xpos_sum as int, cnt as int, COORD_MAX as int);
                lemma_tdiv_bound(acc.ypos_sum as int, cnt as int, COORD_MAX as int);
            }
            let xvel_avg: i64 = tdiv_i128(acc.xvel_sum as i128, cnt) as i64;
            let yvel_avg: i64 = tdiv_i128(acc.yvel_sum as i128, cnt) as i64;
            let xpos_avg: i64 = tdiv_i128(acc.xpos_sum as i128, cnt) as i64;
            let ypos_avg: i64 = tdiv_i128(acc.ypos_sum as i128, cnt) as i64;
            proof {
                assert(((xvel_avg - vx) as i128) * (params.matching_factor as i128)
                    <= 3000000000000000int
                    && ((xvel_avg - vx) as i128) * (params.matching_factor as i128)
                    >= -3000000000000000int) by (nonlinear_arith)
                    requires
                        -3000000 <= (xvel_avg - vx) as int <= 3000000,
                        -PARAM_MAX <= params.matching_factor as int <= PARAM_MAX,
                {
                }
                assert(((yvel_avg - vy) as i128) * (params.matching_factor as i128)
                    <= 3000000000000000int
                    && ((yvel_avg - vy) as i128) * (params.matching_factor as i128)
                    >= -3000000000000000int) by (nonlinear_arith)
                    requires
                        -3000000 <= (yvel_avg - vy) as int <= 3000000,
                        -PARAM_MAX <= params.matching_factor as int <= PARAM_MAX,
                {
                }
                lemma_tdiv_bound(
                    ((xvel_avg - vx) as int) * (params.matching_factor as int),
                    SCALE as int,
                    3000000000000,
                );
                lemma_tdiv_bound(
                    ((yvel_avg - vy) as int) * (params.matching_factor as int),
                    SCALE as int,
                    3000000000000,
                );
            }
            vx = vx + tdiv_i128(
                (xvel_avg - vx) as i128 * params.matching_factor as i128,
                SCALE as i128,
            ) as i64;
            vy = vy + tdiv_i128(
                (yvel_avg - vy) as i128 * params.matching_factor as i128,
                SCALE as i128,
            ) as i64;
            proof {
                assert(((xpos_avg as i128 - sx as i128)) * (params.centering_factor as i128)
                    <= 2000000000000000000int
                    && ((xpos_avg as i128 - sx as i128)) * (params.centering_factor as i128)
                    >= -2000000000000000000int) by (nonlinear_arith)
                    requires
                        -2000000000000 <= xpos_avg as int - sx as int <= 2000000000000,
                        -PARAM_MAX <= params.centering_factor as int <= PARAM_MAX,
                {
                }
                assert(((ypos_avg as i128 - sy as i128)) * (params.centering_factor as i128)
                    <= 2000000000000000000int
                    && ((ypos_avg as i128 - sy as i128)) * (params.centering_factor as i128)
                    >= -2000000000000000000int) by (nonlinear_arith)
                    requires
                        -2000000000000 <= ypos_avg as int - sy as int <= 2000000000000,
                        -PARAM_MAX <= params.centering_factor as int <= PARAM_MAX,
                {
                }
                lemma_tdiv_bound(
                    (xpos_avg as int - sx as int) * (params.centering_factor as int),
                    SCALE as int,
                    2000000000000000,
                );
                lemma_tdiv_bound(
                    (ypos_avg as int - sy as int) * (params.centering_factor as int),
                    SCALE as int,
                    2000000000000000,
                );
            }
            vx = vx + tdiv_i128(
                (xpos_avg as i128 - sx as i128) * params.centering_factor as i128,
                SCALE as i128,
            ) as i64;
            vy = vy + tdiv_i128(
                (ypos_avg as i128 - sy as i128) * params.centering_factor as i128,
                SCALE as i128,
            ) as i64;
        }
        let ghost pulled = spec_flock_pull(b0.x as int, b0.y as int, pushed.0, pushed.1, sums, p);
        proof {
            assert(vx as int == pulled.0 && vy as int == pulled.1);
            assert(sabs(vx as int) <= 2100000000000000 && sabs(vy as int) <= 2100000000000000);
        }

        // Boundary avoidance inside a margin of fifteen percent of
        // each extent.
        let wfp: i64 = width as i64 * SCALE;
        let hfp: i64 = height as i64 * SCALE;
        let mx: i64 = ((wfp as u64 * 15) / 100) as i64;
        let my: i64 = ((hfp as u64 * 15) / 100) as i64;
        proof {
            assert(mx as int == spec_margin(dim_fp(width)));
            assert(my as int == spec_margin(dim_fp(height)));
        }
        if sx < mx {
            vx = vx + params.turn_factor;
        }
        if sy < my {
            vy = vy + params.turn_factor;
        }
        if sx > wfp - mx {
            vx = vx - params.turn_factor;
        }
        if sy > hfp - my {
            vy = vy - params.turn_factor;
        }
        let ghost nudged = spec_boundary_nudge(
            b0.x as int,
            b0.y as int,
            pulled.0,
            pulled.1,
            dim_fp(width),
            dim_fp(height),
            p,
        );
        proof {
            assert(vx as int == nudged.0 && vy as int == nudged.1);
        }

        // Separation: unnormalized, scaled by the avoid factor.
        proof {
            assert((acc.close_dx as i128) * (params.avoid_factor as i128)
                <= 1000000000000000000int
                && (acc.close_dx as i128) * (params.avoid_factor as i128)
                >= -1000000000000000000int) by (nonlinear_arith)
                requires
                    -1000000000000 <= acc.close_dx as int <= 1000000000000,
                    -PARAM_MAX <= params.avoid_factor as int <= PARAM_MAX,
            {
            }
            assert((acc.close_dy as i128) * (params.avoid_factor as i128)
                <= 1000000000000000000int
                && (acc.close_dy as i128) * (params.avoid_factor as i128)
                >= -1000000000000000000int) by (nonlinear_arith)
                requires
                    -1000000000000 <= acc.close_dy as int <= 1000000000000,
                    -PARAM_MAX <= params.avoid_factor as int <= PARAM_MAX,
            {
            }
            lemma_tdiv_bound(
                (acc.close_dx as int) * (params.avoid_factor as int),
                SCALE as int,
                1000000000000000,
            );
            lemma_tdiv_bound(
                (acc.close_dy as int) * (params.avoid_factor as int),
                SCALE as int,
                1000000000000000,
            );
        }
        vx = vx + tdiv_i128(
            acc.close_dx as i128 * params.avoid_factor as i128,
            SCALE as i128,
        ) as i64;
        vy = vy + tdiv_i128(
            acc.close_dy as i128 * params.avoid_factor as i128,
            SCALE as i128,
        ) as i64;
        let ghost parted = spec_separation(nudged.0, nudged.1, sums, p);
        proof {
            assert(vx as int == parted.0 && vy as int == parted.1);
            assert(sabs(vx as int) <= VEL_RAW_MAX && sabs(vy as int) <= VEL_RAW_MAX);
        }

        // Speed clamp, then explicit Euler integration saturating at
        // the coordinate bound.
        let (nvx, nvy) = clamp_speed(vx, vy, params);
        let ghost clamped = spec_clamp_speed(parted.0, parted.1, p);
        proof {
            assert(nvx as int == clamped.0 && nvy as int == clamped.1);
        }
        let nx_raw = sx + nvx;
        let ny_raw = sy + nvy;
        let nx = if nx_raw > COORD_MAX {
            COORD_MAX
        } else if nx_raw < -COORD_MAX {
            -COORD_MAX
        } else {
            nx_raw
        };
        let ny = if ny_raw > COORD_MAX {
            COORD_MAX
        } else if ny_raw < -COORD_MAX {
            -COORD_MAX
        } else {
            ny_raw
        };
        self.x = nx;
        self.y = ny;
        self.vx = nvx;
        self.vy = nvy;
        proof {
            assert(*self == spec_update(b0, others, *predator, p, dim_fp(width), dim_fp(height)));
        }
    }
}

} // verus!
