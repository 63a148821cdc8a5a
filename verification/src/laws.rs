//! The library's stated laws, proved over the tick model.

use vstd::prelude::*;
use vstd::seq_lib::{commutative_foldr, lemma_fold_right_permutation, group_to_multiset_ensures};
use crate::boid::{
    Boid, ScanSums, Predator, scan_init, scan_step, scan_fn, spec_scan, spec_update,
    spec_boundary_nudge, spec_clamp_speed, spec_saturate,
};
use crate::fixed::{sabs, tdiv, isqrt, isqrt_up, lemma_isqrt_up_bounds, lemma_tdiv_mul_le,
    lemma_tdiv_mul_ge};
use crate::params::WorldParams;

verus! {

/// The results of one whole tick over an agent sequence: every agent
/// updated against the same snapshot, in storage order. This is
/// exactly what [`crate::world::World::tick`] promises slot by slot.
pub open spec fn spec_tick_boids(
    boids: Seq<Boid>,
    predator: Option<Predator>,
    p: WorldParams,
    w: int,
    h: int,
) -> Seq<Boid> {
    boids.map_values(|b: Boid| spec_update(b, boids, predator, p, w, h))
}

/// A neighbor scan reads its snapshot as a bag: two snapshots holding
/// the same agents in any storage order yield the same accumulators.
pub proof fn lemma_scan_order_independent(b: Boid, s1: Seq<Boid>, s2: Seq<Boid>, p: WorldParams)
    requires
        s1.to_multiset() == s2.to_multiset(),
    ensures
        spec_scan(b, s1, p) == spec_scan(b, s2, p),
{
    let f = scan_fn(b, p);
    assert(commutative_foldr(f)) by {
        assert forall|x: Boid, y: Boid, v: ScanSums| #[trigger]
            f(x, f(y, v)) == f(y, f(x, v)) by {
            assert(f(x, f(y, v)) == scan_step(b, x, p, scan_step(b, y, p, v)));
            assert(f(y, f(x, v)) == scan_step(b, y, p, scan_step(b, x, p, v)));
        }
    }
    lemma_fold_right_permutation(s1, s2, f, scan_init());
}

/// An agent's whole update reads its snapshot as a bag: permuting the
/// snapshot's storage order changes nothing of the result.
pub proof fn lemma_update_order_independent(
    b: Boid,
    s1: Seq<Boid>,
    s2: Seq<Boid>,
    predator: Option<Predator>,
    p: WorldParams,
    w: int,
    h: int,
)
    requires
        s1.to_multiset() == s2.to_multiset(),
    ensures
        spec_update(b, s1, predator, p, w, h) == spec_update(b, s2, predator, p, w, h),
{
    lemma_scan_order_independent(b, s1, s2, p);
}

/// Mapping a function over two sequences that hold the same elements
/// (in any order) yields sequences that hold the same results.
proof fn lemma_map_values_multiset<A, B>(s1: Seq<A>, s2: Seq<A>, g: spec_fn(A) -> B)
    requires
        s1.to_multiset() == s2.to_multiset(),
    ensures
        s1.map_values(g).to_multiset() == s2.map_values(g).to_multiset(),
    decreases s1.len(),
{
    broadcast use group_to_multiset_ensures;

    if s1.len() == 0 {
        assert(s2.len() == s2.to_multiset().len());
        assert(s1.map_values(g) =~= Seq::<B>::empty());
        assert(s2.map_values(g) =~= Seq::<B>::empty());
    } else {
        let a = s1.last();
        assert(s1.contains(a));
        assert(s1.to_multiset().count(a) > 0);
        assert(s2.contains(a));
        let i = s2.index_of(a);
        assert(s1.drop_last() =~= s1.remove(s1.len() - 1));
        assert(s1.drop_last().to_multiset() =~= s1.to_multiset().remove(a));
        assert(s2.remove(i).to_multiset() =~= s2.to_multiset().remove(a));
        lemma_map_values_multiset(s1.drop_last(), s2.remove(i), g);
        assert(s1.map_values(g) =~= s1.drop_last().map_values(g).push(g(a)));
        assert(s2.remove(i).map_values(g) =~= s2.map_values(g).remove(i));
        assert(s1.map_values(g).to_multiset() =~= s1.drop_last().map_values(
            g,
        ).to_multiset().insert(g(a)));
        assert(s2.map_values(g).remove(i).to_multiset() =~= s2.map_values(
            g,
        ).to_multiset().remove(g(s2[i])));
        assert(s2.map_values(g).to_multiset().count(g(s2[i])) > 0);
        assert(s2.map_values(g).to_multiset() =~= s2.map_values(g).to_multiset().remove(
            g(s2[i]),
        ).insert(g(s2[i])));
    }
}

/// Permuting the agents' storage order before a tick permutes the
/// resulting agents the same way and changes nothing else: the bag of
/// post-tick agent states is the same, only the buffer slots move.
pub proof fn lemma_tick_order_independent(
    s1: Seq<Boid>,
    s2: Seq<Boid>,
    predator: Option<Predator>,
    p: WorldParams,
    w: int,
    h: int,
)
    requires
        s1.to_multiset() == s2.to_multiset(),
    ensures
        spec_tick_boids(s1, predator, p, w, h).to_multiset() == spec_tick_boids(
            s2,
            predator,
            p,
            w,
            h,
        ).to_multiset(),
{
    let g1 = |b: Boid| spec_update(b, s1, predator, p, w, h);
    let g2 = |b: Boid| spec_update(b, s2, predator, p, w, h);
    assert(s2.map_values(g2) =~= s2.map_values(g1)) by {
        assert forall|i: int| 0 <= i < s2.len() implies s2.map_values(g2)[i] == s2.map_values(
            g1,
        )[i] by {
            lemma_update_order_independent(s2[i], s2, s1, predator, p, w, h);
        }
    }
    lemma_map_values_multiset(s1, s2, g1);
}

/// Rescaling a velocity by `m / c`, where `c` is at least the true
/// magnitude and exceeds `m`, lands the squared magnitude in
/// `[m*m - 6*m, m*m]`: the truncating divisions lose strictly less
/// than one unit of magnitude per axis.
proof fn lemma_downscale_bounds(vx: int, vy: int, m: int, c: int)
    requires
        m >= 0,
        c >= m + 1,
        c >= 1,
        c * c >= vx * vx + vy * vy,
        (c - 1) * (c - 1) < vx * vx + vy * vy,
    ensures
        ({
            let qx = tdiv(vx * m, c);
            let qy = tdiv(vy * m, c);
            qx * qx + qy * qy <= m * m && qx * qx + qy * qy >= m * m - 6 * m
        }),
{
    let s = vx * vx + vy * vy;
    let qx = tdiv(vx * m, c);
    let qy = tdiv(vy * m, c);
    let tx = vx * m;
    let ty = vy * m;
    let ax = qx * c;
    let ay = qy * c;
    let atx = if tx >= 0 { tx } else { -tx };
    let aty = if ty >= 0 { ty } else { -ty };
    lemma_tdiv_mul_le(tx, c);
    lemma_tdiv_mul_ge(tx, c);
    lemma_tdiv_mul_le(ty, c);
    lemma_tdiv_mul_ge(ty, c);
    assert(ax * ax <= tx * tx && ax * ax >= tx * tx - 2 * atx * (c - 1)) by (nonlinear_arith)
        requires
            c >= 1,
            ax == qx * c,
            atx == (if tx >= 0 { tx } else { -tx }),
            tx >= 0 ==> 0 <= qx && qx * c <= tx && qx * c >= tx - (c - 1),
            tx < 0 ==> qx <= 0 && qx * c >= tx && qx * c <= tx + (c - 1),
    {
    }
    assert(ay * ay <= ty * ty && ay * ay >= ty * ty - 2 * aty * (c - 1)) by (nonlinear_arith)
        requires
            c >= 1,
            ay == qy * c,
            aty == (if ty >= 0 { ty } else { -ty }),
            ty >= 0 ==> 0 <= qy && qy * c <= ty && qy * c >= ty - (c - 1),
            ty < 0 ==> qy <= 0 && qy * c >= ty && qy * c <= ty + (c - 1),
    {
    }
    assert(ax * ax == (qx * qx) * (c * c) && ay * ay == (qy * qy) * (c * c)) by (nonlinear_arith)
        requires
            ax == qx * c,
            ay == qy * c,
    {
    }
    assert(tx * tx + ty * ty == s * (m * m)) by (nonlinear_arith)
        requires
            tx == vx * m,
            ty == vy * m,
            s == vx * vx + vy * vy,
    {
    }
    // Upper bound.
    assert(s * (m * m) <= (c * c) * (m * m)) by (nonlinear_arith)
        requires
            s <= c * c,
            m * m >= 0,
    {
    }
    assert(m * m >= 0) by (nonlinear_arith);
    assert((qx * qx + qy * qy) * (c * c) == (qx * qx) * (c * c) + (qy * qy) * (c * c))
        by (nonlinear_arith);
    assert(qx * qx + qy * qy <= m * m) by (nonlinear_arith)
        requires
            (qx * qx + qy * qy) * (c * c) <= (c * c) * (m * m),
            c * c >= 1,
    {
    }
    // Lower bound.
    assert(vx * vx <= c * c && vy * vy <= c * c) by (nonlinear_arith)
        requires
            vx * vx + vy * vy <= c * c,
    {
    }
    assert(atx <= c * m && aty <= c * m) by (nonlinear_arith)
        requires
            atx == (if tx >= 0 { tx } else { -tx }),
            aty == (if ty >= 0 { ty } else { -ty }),
            tx == vx * m,
            ty == vy * m,
            m >= 0,
            c >= 1,
            vx * vx <= c * c,
            vy * vy <= c * c,
    {
    }
    assert((qx * qx + qy * qy) * (c * c) >= s * (m * m) - 4 * (c * m) * (c - 1)) by {
        assert((qx * qx + qy * qy) * (c * c) >= (tx * tx + ty * ty) - 2 * (atx + aty) * (c - 1))
            by (nonlinear_arith)
            requires
                ax * ax == (qx * qx) * (c * c),
                ay * ay == (qy * qy) * (c * c),
                ax * ax >= tx * tx - 2 * atx * (c - 1),
                ay * ay >= ty * ty - 2 * aty * (c - 1),
        {
        }
        assert(2 * (atx + aty) * (c - 1) <= 4 * (c * m) * (c - 1)) by (nonlinear_arith)
            requires
                atx <= c * m,
                aty <= c * m,
                c >= 1,
        {
        }
    }
    assert(s * (m * m) >= ((c - 1) * (c - 1) + 1) * (m * m)) by (nonlinear_arith)
        requires
            s >= (c - 1) * (c - 1) + 1,
            m * m >= 0,
    {
    }
    assert(((c - 1) * (c - 1) + 1) * (m * m) - 4 * (c * m) * (c - 1) >= (m * m - 6 * m) * (c * c))
        by (nonlinear_arith)
        requires
            0 <= m <= c - 1,
            c >= 1,
    {
    }
    assert(qx * qx + qy * qy >= m * m - 6 * m) by (nonlinear_arith)
        requires
            (qx * qx + qy * qy) * (c * c) >= (m * m - 6 * m) * (c * c),
            c * c >= 1,
    {
    }
}

/// The speed clamp keeps its promise wherever the rescale does not
/// start below the minimum: an agent whose pre-clamp speed is at
/// least `min_speed` ends the clamp with a squared speed at most
/// `max_speed²`, and at least `min_speed²` less a rounding loss below
/// `6·max_speed` (less than one fixed-point unit of speed for any
/// realistic bound).
pub proof fn lemma_clamp_speed_in_bounds(vx: int, vy: int, p: WorldParams)
    requires
        0 <= p.min_speed <= p.max_speed,
        vx * vx + vy * vy >= p.min_speed * p.min_speed,
    ensures
        ({
            let (cvx, cvy) = spec_clamp_speed(vx, vy, p);
            cvx * cvx + cvy * cvy <= p.max_speed * p.max_speed && cvx * cvx + cvy * cvy
                >= p.min_speed * p.min_speed - 6 * p.max_speed
        }),
{
    let s = vx * vx + vy * vy;
    let maxs = p.max_speed;
    let mins = p.min_speed;
    assert(maxs * maxs >= mins * mins) by (nonlinear_arith)
        requires
            0 <= mins <= maxs,
    {
    }
    if s == 0 {
        assert(vx == 0 && vy == 0) by (nonlinear_arith)
            requires
                vx * vx + vy * vy == 0,
        {
        }
        assert(mins == 0) by (nonlinear_arith)
            requires
                mins * mins <= 0,
                mins >= 0,
        {
        }
        assert(maxs * maxs >= 0) by (nonlinear_arith);
    } else if s > maxs * maxs {
        lemma_isqrt_up_bounds(s);
        let c = isqrt_up(s);
        assert(c >= maxs + 1) by (nonlinear_arith)
            requires
                c * c >= s,
                s > maxs * maxs,
                maxs >= 0,
                c >= 1,
        {
        }
        lemma_downscale_bounds(vx, vy, maxs as int, c);
    } else {
        assert(s <= maxs * maxs);
        assert(!(mins > 0 && s < mins * mins));
        assert(6 * maxs >= 0);
    }
}

/// Rescaling a velocity by `m / f`, where `f` is at most the true
/// magnitude and below `m`, lands the squared magnitude in
/// `[m*m - 4*m, 3*m*m]`: the rounded-down integer speed can
/// understate a tiny magnitude by almost one, so the upscale can
/// overshoot, by at most that ratio squared.
proof fn lemma_upscale_bounds(vx: int, vy: int, m: int, f: int)
    requires
        f >= 1,
        m >= f + 1,
        f * f <= vx * vx + vy * vy,
        vx * vx + vy * vy < (f + 1) * (f + 1),
    ensures
        ({
            let qx = tdiv(vx * m, f);
            let qy = tdiv(vy * m, f);
            qx * qx + qy * qy <= 3 * (m * m) && qx * qx + qy * qy >= m * m - 4 * m
        }),
{
    let s = vx * vx + vy * vy;
    let qx = tdiv(vx * m, f);
    let qy = tdiv(vy * m, f);
    let tx = vx * m;
    let ty = vy * m;
    let ax = qx * f;
    let ay = qy * f;
    let atx = if tx >= 0 { tx } else { -tx };
    let aty = if ty >= 0 { ty } else { -ty };
    assert(f * f >= 1) by (nonlinear_arith)
        requires
            f >= 1,
    {
    }
    lemma_tdiv_mul_le(tx, f);
    lemma_tdiv_mul_ge(tx, f);
    lemma_tdiv_mul_le(ty, f);
    lemma_tdiv_mul_ge(ty, f);
    assert(ax * ax <= tx * tx && ax * ax >= tx * tx - 2 * atx * (f - 1)) by (nonlinear_arith)
        requires
            f >= 1,
            ax == qx * f,
            atx == (if tx >= 0 { tx } else { -tx }),
            tx >= 0 ==> 0 <= qx && qx * f <= tx && qx * f >= tx - (f - 1),
            tx < 0 ==> qx <= 0 && qx * f >= tx && qx * f <= tx + (f - 1),
    {
    }
    assert(ay * ay <= ty * ty && ay * ay >= ty * ty - 2 * aty * (f - 1)) by (nonlinear_arith)
        requires
            f >= 1,
            ay == qy * f,
            aty == (if ty >= 0 { ty } else { -ty }),
            ty >= 0 ==> 0 <= qy && qy * f <= ty && qy * f >= ty - (f - 1),
            ty < 0 ==> qy <= 0 && qy * f >= ty && qy * f <= ty + (f - 1),
    {
    }
    assert(ax * ax == (qx * qx) * (f * f) && ay * ay == (qy * qy) * (f * f)) by (nonlinear_arith)
        requires
            ax == qx * f,
            ay == qy * f,
    {
    }
    assert(tx * tx + ty * ty == s * (m * m)) by (nonlinear_arith)
        requires
            tx == vx * m,
            ty == vy * m,
            s == vx * vx + vy * vy,
    {
    }
    assert((qx * qx + qy * qy) * (f * f) == (qx * qx) * (f * f) + (qy * qy) * (f * f))
        by (nonlinear_arith);
    assert(m * m >= 0) by (nonlinear_arith);
    // Upper bound: s < (f + 1)^2 means s <= f^2 + 2f, and 2f <= 2 f^2.
    assert(s * (m * m) <= 3 * (m * m) * (f * f)) by (nonlinear_arith)
        requires
            s < (f + 1) * (f + 1),
            f >= 1,
            m * m >= 0,
    {
    }
    assert(qx * qx + qy * qy <= 3 * (m * m)) by (nonlinear_arith)
        requires
            (qx * qx + qy * qy) * (f * f) <= 3 * (m * m) * (f * f),
            f * f >= 1,
    {
    }
    // Lower bound.
    assert(vx * vx < (f + 1) * (f + 1) && vy * vy < (f + 1) * (f + 1)) by (nonlinear_arith)
        requires
            vx * vx + vy * vy < (f + 1) * (f + 1),
    {
    }
    assert(-f <= vx <= f && -f <= vy <= f) by (nonlinear_arith)
        requires
            vx * vx < (f + 1) * (f + 1),
            vy * vy < (f + 1) * (f + 1),
            f >= 0,
    {
    }
    assert(atx <= f * m && aty <= f * m) by (nonlinear_arith)
        requires
            atx == (if tx >= 0 { tx } else { -tx }),
            aty == (if ty >= 0 { ty } else { -ty }),
            tx == vx * m,
            ty == vy * m,
            m >= 1,
            f >= 0,
            -f <= vx <= f,
            -f <= vy <= f,
    {
    }
    assert((qx * qx + qy * qy) * (f * f) >= s * (m * m) - 4 * (f * m) * (f - 1)) by {
        assert((qx * qx + qy * qy) * (f * f) >= (tx * tx + ty * ty) - 2 * (atx + aty) * (f - 1))
            by (nonlinear_arith)
            requires
                ax * ax == (qx * qx) * (f * f),
                ay * ay == (qy * qy) * (f * f),
                ax * ax >= tx * tx - 2 * atx * (f - 1),
                ay * ay >= ty * ty - 2 * aty * (f - 1),
        {
        }
        assert(2 * (atx + aty) * (f - 1) <= 4 * (f * m) * (f - 1)) by (nonlinear_arith)
            requires
                atx <= f * m,
                aty <= f * m,
                f >= 1,
    {
        }
    }
    assert(s * (m * m) >= (f * f) * (m * m)) by (nonlinear_arith)
        requires
            s >= f * f,
            m * m >= 0,
    {
    }
    assert((f * f) * (m * m) - 4 * (f * m) * (f - 1) >= (m * m - 4 * m) * (f * f))
        by (nonlinear_arith)
        requires
            m >= 1,
            f >= 1,
    {
    }
    assert(qx * qx + qy * qy >= m * m - 4 * m) by (nonlinear_arith)
        requires
            (qx * qx + qy * qy) * (f * f) >= (m * m - 4 * m) * (f * f),
            f * f >= 1,
    {
    }
}

/// The speed clamp on a speed below the minimum: the rescale aims at
/// `min_speed` and lands with a squared speed of at least
/// `min_speed² - 4·min_speed`. The rounded-down integer speed it
/// divides by can understate a tiny magnitude, so the result can
/// overshoot, but never beyond three times the squared minimum.
pub proof fn lemma_clamp_speed_raises_slow(vx: int, vy: int, p: WorldParams)
    requires
        0 < p.min_speed <= p.max_speed,
        0 < vx * vx + vy * vy,
        vx * vx + vy * vy < p.min_speed * p.min_speed,
    ensures
        ({
            let (cvx, cvy) = spec_clamp_speed(vx, vy, p);
            cvx * cvx + cvy * cvy >= p.min_speed * p.min_speed - 4 * p.min_speed && cvx * cvx
                + cvy * cvy <= 3 * (p.min_speed * p.min_speed)
        }),
{
    let s = vx * vx + vy * vy;
    let mins = p.min_speed;
    let maxs = p.max_speed;
    assert(mins * mins <= maxs * maxs) by (nonlinear_arith)
        requires
            0 <= mins <= maxs,
    {
    }
    assert(!(maxs < 0 || s > maxs * maxs));
    crate::fixed::lemma_isqrt_exists(s);
    let f = isqrt(s);
    assert(f >= 1) by (nonlinear_arith)
        requires
            (f + 1) * (f + 1) > s,
            s >= 1,
            f >= 0,
    {
    }
    assert(mins >= f + 1) by (nonlinear_arith)
        requires
            f * f <= s,
            s < mins * mins,
            mins > 0,
            f >= 0,
    {
    }
    lemma_upscale_bounds(vx, vy, mins as int, f);
}

/// A lone agent with no predator accumulates nothing from the scan:
/// its own snapshot entry is skipped by the exact self-match test, so
/// its velocity changes only through the boundary nudge and the speed
/// clamp, and its position only by integrating that velocity.
pub proof fn lemma_lone_agent(b: Boid, p: WorldParams, w: int, h: int)
    ensures
        spec_scan(b, seq![b], p) == scan_init(),
        spec_update(b, seq![b], Option::None, p, w, h) == ({
            let nudged = spec_boundary_nudge(b.x as int, b.y as int, b.vx as int, b.vy as int, w, h, p);
            let clamped = spec_clamp_speed(nudged.0, nudged.1, p);
            Boid {
                x: spec_saturate(b.x + clamped.0) as i64,
                y: spec_saturate(b.y + clamped.1) as i64,
                vx: clamped.0 as i64,
                vy: clamped.1 as i64,
            }
        }),
{
    let f = scan_fn(b, p);
    let s = seq![b];
    assert(s.drop_last() =~= Seq::<Boid>::empty());
    assert(s.last() == b);
    assert(Seq::<Boid>::empty().fold_right(f, f(b, scan_init())) == f(b, scan_init()));
    assert(s.fold_right(f, scan_init()) == f(b, scan_init()));
    assert(f(b, scan_init()) == scan_step(b, b, p, scan_init()));
    assert(scan_step(b, b, p, scan_init()) == scan_init());
    assert(0 * p.avoid_factor == 0) by (nonlinear_arith);
    vstd::arithmetic::div_mod::lemma_div_of0(crate::fixed::SCALE as int);
    assert(tdiv(0, crate::fixed::SCALE as int) == 0);
}

/// Two agents inside each other's protected range feed their
/// separation sums with displacements of the same magnitude and
/// opposite sign: each is pushed directly away from the other.
pub proof fn lemma_symmetric_separation(a: Boid, b: Boid, p: WorldParams)
    requires
        !(a.x == b.x && a.y == b.y),
        sabs(a.x - b.x) < p.visible_range,
        sabs(a.y - b.y) < p.visible_range,
        (a.x - b.x) * (a.x - b.x) + (a.y - b.y) * (a.y - b.y) < p.protected_range
            * p.protected_range,
    ensures
        spec_scan(a, seq![a, b], p).close_dx == a.x - b.x,
        spec_scan(a, seq![a, b], p).close_dy == a.y - b.y,
        spec_scan(b, seq![a, b], p).close_dx == -(a.x - b.x),
        spec_scan(b, seq![a, b], p).close_dy == -(a.y - b.y),
        spec_scan(a, seq![a, b], p).count == 0,
        spec_scan(b, seq![a, b], p).count == 0,
{
    let s = seq![a, b];
    assert((b.x - a.x) * (b.x - a.x) == (a.x - b.x) * (a.x - b.x)) by (nonlinear_arith);
    assert((b.y - a.y) * (b.y - a.y) == (a.y - b.y) * (a.y - b.y)) by (nonlinear_arith);
    let fa = scan_fn(a, p);
    assert(s.drop_last() =~= seq![a]);
    assert(s.last() == b);
    assert(seq![a].drop_last() =~= Seq::<Boid>::empty());
    assert(seq![a].last() == a);
    let acc_ab = fa(b, scan_init());
    assert(Seq::<Boid>::empty().fold_right(fa, fa(a, acc_ab)) == fa(a, acc_ab));
    assert(seq![a].fold_right(fa, acc_ab) == fa(a, acc_ab));
    assert(s.fold_right(fa, scan_init()) == fa(a, acc_ab));
    assert(acc_ab == scan_step(a, b, p, scan_init()));
    assert(fa(a, acc_ab) == scan_step(a, a, p, acc_ab));
    let fb = scan_fn(b, p);
    let acc_bb = fb(b, scan_init());
    assert(Seq::<Boid>::empty().fold_right(fb, fb(a, acc_bb)) == fb(a, acc_bb));
    assert(seq![a].fold_right(fb, acc_bb) == fb(a, acc_bb));
    assert(s.fold_right(fb, scan_init()) == fb(a, acc_bb));
    assert(acc_bb == scan_step(b, b, p, scan_init()));
    assert(fb(a, acc_bb) == scan_step(b, a, p, acc_bb));
}

} // verus!
