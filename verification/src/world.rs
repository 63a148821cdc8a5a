//! The world: the agent collection, the optional predator, the rule
//! parameters and the render buffer, advanced one tick at a time.

use vstd::prelude::*;
use crate::boid::{
    Boid, Predator, spec_update, dim_fp, predator_wf,
};
use crate::fixed::{SCALE, COORD_MAX, PARAM_MAX, AGENTS_MAX, DIM_MAX};
use crate::params::WorldParams;
use crate::rng::{Lcg, next_state};

verus! {

/// The position an agent is spawned at on one axis: a pseudo-random
/// draw in `[0, extent)` fixed-point units, or zero for a degenerate
/// extent.
pub open spec fn spawn_coord(s: u64, d: u32) -> int {
    if d == 0 {
        0
    } else {
        (s as int) % (d as int * SCALE)
    }
}

/// The initial velocity of a spawned agent on one axis: a signed
/// pseudo-random spread in `[-10, 10]` world units.
pub open spec fn spawn_vel(s: u64) -> int {
    (s as int) % 20001 - 10000
}

/// The agent spawned from generator state `s0`, consuming four draws:
/// x position, y position, x velocity, y velocity.
pub open spec fn spawn_boid(s0: u64, w: u32, h: u32) -> Boid {
    let s1 = next_state(s0);
    let s2 = next_state(s1);
    let s3 = next_state(s2);
    let s4 = next_state(s3);
    Boid {
        x: spawn_coord(s1, w) as i64,
        y: spawn_coord(s2, h) as i64,
        vx: spawn_vel(s3) as i64,
        vy: spawn_vel(s4) as i64,
    }
}

/// The generator state after one agent has been spawned.
pub open spec fn spawn_state(s0: u64) -> u64 {
    next_state(next_state(next_state(next_state(s0))))
}

/// The flock spawned from generator state `s0`: `n` agents, each
/// consuming four draws in storage order.
pub open spec fn spec_spawn(s0: u64, n: nat, w: u32, h: u32) -> Seq<Boid>
    decreases n,
{
    if n == 0 {
        Seq::empty()
    } else {
        seq![spawn_boid(s0, w, h)] + spec_spawn(spawn_state(s0), (n - 1) as nat, w, h)
    }
}

/// The simulation world.
pub struct World {
    /// World width, in whole world units.
    pub width: u32,
    /// World height, in whole world units.
    pub height: u32,
    /// The agent collection; its length is fixed for the life of the
    /// world.
    pub boids: Vec<Boid>,
    /// The flat output buffer: `[x0, y0, x1, y1, ...]`, rewritten
    /// wholesale by every tick.
    pub render_xy: Vec<i64>,
    /// The optional repulsion point, created lazily by the first
    /// location set.
    pub predator: Option<Predator>,
    /// The tunable rule parameters, read by every agent update.
    pub params: WorldParams,
}

impl World {
    /// Dimensions, counts, parameters, agents and predator within
    /// their bounds, and the render buffer holding two entries per
    /// agent. Constructors establish this and every method preserves
    /// it.
    pub open spec fn wf(self) -> bool {
        &&& self.width <= DIM_MAX
        &&& self.height <= DIM_MAX
        &&& self.boids@.len() <= AGENTS_MAX
        &&& forall|i: int| 0 <= i < self.boids@.len() ==> (#[trigger] self.boids@[i]).wf()
        &&& self.params.wf()
        &&& predator_wf(self.predator)
        &&& self.render_xy@.len() == 2 * self.boids@.len()
    }

    /// A world of `num_boids` pseudo-randomly placed agents, no
    /// predator, the given parameter bundle, and a zero-filled render
    /// buffer. The whole initial state is a function of the
    /// arguments; `seed` alone drives the placement.
    pub fn new(
        width: u32,
        height: u32,
        num_boids: u32,
        avoid_factor: i64,
        visible_range: i64,
        matching_factor: i64,
        turn_factor: i64,
        min_speed: i64,
        max_speed: i64,
        centering_factor: i64,
        protected_range: i64,
        predator_turn_factor: i64,
        predator_range: i64,
        seed: u64,
    ) -> (r: World)
        requires
            width <= DIM_MAX,
            height <= DIM_MAX,
            num_boids as int <= AGENTS_MAX as int,
            -PARAM_MAX <= avoid_factor <= PARAM_MAX,
            -PARAM_MAX <= visible_range <= PARAM_MAX,
            -PARAM_MAX <= matching_factor <= PARAM_MAX,
            -PARAM_MAX <= turn_factor <= PARAM_MAX,
            -PARAM_MAX <= min_speed <= PARAM_MAX,
            -PARAM_MAX <= max_speed <= PARAM_MAX,
            -PARAM_MAX <= centering_factor <= PARAM_MAX,
            -PARAM_MAX <= protected_range <= PARAM_MAX,
            -PARAM_MAX <= predator_turn_factor <= PARAM_MAX,
            -PARAM_MAX <= predator_range <= PARAM_MAX,
        ensures
            r.width == width,
            r.height == height,
            r.boids@ == spec_spawn(seed, num_boids as nat, width, height),
            r.render_xy@ == Seq::new(2 * num_boids as nat, |i: int| 0i64),
            r.predator == Option::<Predator>::None,
            r.params == (WorldParams {
                avoid_factor,
                visible_range,
                matching_factor,
                turn_factor,
                max_speed,
                min_speed,
                centering_factor,
                protected_range,
                predator_turn_factor,
                predator_range,
            }),
            r.wf(),
    {
        let mut rng = Lcg::seeded(seed);
        let mut boids: Vec<Boid> = Vec::new();
        let mut k: u32 = 0;
        while k < num_boids
            invariant
                k <= num_boids,
                num_boids as int <= AGENTS_MAX as int,
                width <= DIM_MAX,
                height <= DIM_MAX,
                boids@.len() == k as int,
                forall|i: int| 0 <= i < boids@.len() ==> (#[trigger] boids@[i]).wf(),
                spec_spawn(seed, num_boids as nat, width, height) == boids@ + spec_spawn(
                    rng.state,
                    (num_boids - k) as nat,
                    width,
                    height,
                ),
            decreases num_boids - k,
        {
            let ghost s0 = rng.state;
            let ghost prefix = boids@;
            let rx = rng.next();
            let x: i64 = if width == 0 {
                0
            } else {
                (rx % (width as u64 * 1000)) as i64
            };
            let ry = rng.next();
            let y: i64 = if height == 0 {
                0
            } else {
                (ry % (height as u64 * 1000)) as i64
            };
            let rvx = rng.next();
            let vx: i64 = (rvx % 20001) as i64 - 10000;
            let rvy = rng.next();
            let vy: i64 = (rvy % 20001) as i64 - 10000;
            let b = Boid::new(x, y, vx, vy);
            boids.push(b);
            k = k + 1;
            proof {
                assert(b == spawn_boid(s0, width, height));
                assert(rng.state == spawn_state(s0));
                assert(spec_spawn(s0, (num_boids - (k - 1)) as nat, width, height)
                    == seq![spawn_boid(s0, width, height)] + spec_spawn(
                    spawn_state(s0),
                    (num_boids - k) as nat,
                    width,
                    height,
                ));
                assert(boids@ =~= prefix + seq![b]);
                assert((prefix + seq![b]) + spec_spawn(
                    rng.state,
                    (num_boids - k) as nat,
                    width,
                    height,
                ) =~= prefix + (seq![b] + spec_spawn(
                    rng.state,
                    (num_boids - k) as nat,
                    width,
                    height,
                )));
            }
        }
        let buf_len: usize = 2 * (num_boids as usize);
        let mut render_xy: Vec<i64> = Vec::new();
        let mut j: usize = 0;
        while j < buf_len
            invariant
                j <= buf_len,
                render_xy@.len() == j as int,
                forall|i: int| 0 <= i < j as int ==> render_xy@[i] == 0i64,
            decreases buf_len - j,
        {
            render_xy.push(0);
            j = j + 1;
        }
        proof {
            assert(render_xy@ =~= Seq::new(2 * num_boids as nat, |i: int| 0i64));
        }
        World {
            width,
            height,
            boids,
            render_xy,
            predator: Option::None,
            params: WorldParams {
                avoid_factor,
                visible_range,
                matching_factor,
                turn_factor,
                max_speed,
                min_speed,
                centering_factor,
                protected_range,
                predator_turn_factor,
                predator_range,
            },
        }
    }

    /// One simulation step: snapshot the agents, update every agent
    /// against that snapshot (never against the mutating collection),
    /// then rewrite the render buffer to mirror the new positions.
    /// The resulting state is a function of the starting state alone:
    /// repeating a run from the same state reproduces it bit for bit.
    pub fn tick(&mut self)
        requires
            old(self).wf(),
        ensures
            final(self).boids@ == crate::laws::spec_tick_boids(
                old(self).boids@,
                old(self).predator,
                old(self).params,
                dim_fp(old(self).width),
                dim_fp(old(self).height),
            ),
            final(self).width == old(self).width,
            final(self).height == old(self).height,
            final(self).params == old(self).params,
            final(self).predator == old(self).predator,
            final(self).boids@.len() == old(self).boids@.len(),
            forall|i: int|
                0 <= i < old(self).boids@.len() ==> final(self).boids@[i] == spec_update(
                    old(self).boids@[i],
                    old(self).boids@,
                    old(self).predator,
                    old(self).params,
                    dim_fp(old(self).width),
                    dim_fp(old(self).height),
                ),
            final(self).render_xy@.len() == 2 * final(self).boids@.len(),
            forall|i: int|
                0 <= i < final(self).boids@.len() ==> final(self).render_xy@[2 * i] == (
                #[trigger] final(self).boids@[i]).x && final(self).render_xy@[2 * i + 1]
                    == final(self).boids@[i].y,
            final(self).wf(),
    {
        let n = self.boids.len();

        // Snapshot: a full value copy, independent of the live
        // collection, so no in-place mutation this tick can be
        // observed by another agent's update.
        let mut snapshot: Vec<Boid> = Vec::new();
        let mut i: usize = 0;
        while i < n
            invariant
                i <= n,
                n == self.boids@.len(),
                snapshot@.len() == i as int,
                forall|j: int| 0 <= j < i as int ==> snapshot@[j] == self.boids@[j],
                *self == *old(self),
            decreases n - i,
        {
            let b = self.boids[i];
            snapshot.push(b);
            i = i + 1;
        }
        proof {
            assert(snapshot@ =~= old(self).boids@);
        }

        let mut i: usize = 0;
        while i < n
            invariant
                i <= n,
                old(self).wf(),
                n == self.boids@.len(),
                n == old(self).boids@.len(),
                snapshot@ == old(self).boids@,
                self.width == old(self).width,
                self.height == old(self).height,
                self.params == old(self).params,
                self.predator == old(self).predator,
                self.render_xy@ == old(self).render_xy@,
                forall|j: int|
                    0 <= j < i as int ==> self.boids@[j] == spec_update(
                        old(self).boids@[j],
                        old(self).boids@,
                        old(self).predator,
                        old(self).params,
                        dim_fp(old(self).width),
                        dim_fp(old(self).height),
                    ),
                forall|j: int| i as int <= j < n ==> self.boids@[j] == old(self).boids@[j],
                forall|j: int| 0 <= j < n ==> (#[trigger] self.boids@[j]).wf(),
            decreases n - i,
        {
            let mut b = self.boids[i];
            b.update(&snapshot, self.width, self.height, &self.predator, &self.params);
            self.boids.set(i, b);
            i = i + 1;
        }

        let mut i: usize = 0;
        while i < n
            invariant
                i <= n,
                n == self.boids@.len(),
                n <= AGENTS_MAX,
                self.render_xy@.len() == 2 * n,
                self.width == old(self).width,
                self.height == old(self).height,
                self.params == old(self).params,
                self.predator == old(self).predator,
                forall|j: int|
                    0 <= j < n ==> self.boids@[j] == spec_update(
                        old(self).boids@[j],
                        old(self).boids@,
                        old(self).predator,
                        old(self).params,
                        dim_fp(old(self).width),
                        dim_fp(old(self).height),
                    ),
                forall|j: int| 0 <= j < n ==> (#[trigger] self.boids@[j]).wf(),
                forall|j: int|
                    0 <= j < i as int ==> self.render_xy@[2 * j] == (
                    #[trigger] self.boids@[j]).x && self.render_xy@[2 * j + 1]
                        == self.boids@[j].y,
            decreases n - i,
        {
            let b = self.boids[i];
            self.render_xy.set(2 * i, b.x);
            self.render_xy.set(2 * i + 1, b.y);
            i = i + 1;
        }
        proof {
            assert(self.boids@ =~= crate::laws::spec_tick_boids(
                old(self).boids@,
                old(self).predator,
                old(self).params,
                dim_fp(old(self).width),
                dim_fp(old(self).height),
            ));
        }
    }

    /// The render buffer as a read-only view: `2 * agent_count`
    /// fixed-point values, `[x0, y0, x1, y1, ...]`, valid until the
    /// next mutation of the world.
    pub fn render_xy(&self) -> (r: &Vec<i64>)
        ensures
            r@ == self.render_xy@,
    {
        &self.render_xy
    }

    /// The length of the render buffer: two entries per agent.
    pub fn render_xy_len(&self) -> (r: usize)
        ensures
            r as int == self.render_xy@.len(),
    {
        self.render_xy.len()
    }

    /// The number of agents; fixed for the life of the world.
    pub fn num_boids(&self) -> (r: usize)
        ensures
            r as int == self.boids@.len(),
    {
        self.boids.len()
    }

    /// The agent at a storage slot.
    pub fn boid(&self, i: usize) -> (r: Boid)
        requires
            i < self.boids@.len(),
        ensures
            r == self.boids@[i as int],
    {
        self.boids[i]
    }

    /// Replaces the agent at a storage slot: lets a host place agents
    /// deliberately, or permute the storage order. The render buffer
    /// keeps its previous contents until the next tick.
    pub fn set_boid(&mut self, i: usize, b: Boid)
        requires
            old(self).wf(),
            i < old(self).boids@.len(),
            b.wf(),
        ensures
            *final(self) == (World {
                boids: final(self).boids,
                ..*old(self)
            }),
            final(self).boids@ == old(self).boids@.update(i as int, b),
            final(self).wf(),
    {
        self.boids.set(i, b);
    }

    /// World width, in whole world units.
    pub fn width(&self) -> (r: u32)
        ensures
            r == self.width,
    {
        self.width
    }

    /// World height, in whole world units.
    pub fn height(&self) -> (r: u32)
        ensures
            r == self.height,
    {
        self.height
    }

    /// Creates the predator on the first call, and moves the existing
    /// one afterwards. No removal operation exists.
    pub fn set_predator_loc(&mut self, x: i64, y: i64)
        requires
            old(self).wf(),
            -COORD_MAX <= x <= COORD_MAX,
            -COORD_MAX <= y <= COORD_MAX,
        ensures
            *final(self) == (World {
                predator: Option::Some(Predator { x, y }),
                ..*old(self)
            }),
            final(self).wf(),
    {
        match &mut self.predator {
            Option::Some(pr) => {
                pr.x = x;
                pr.y = y;
            },
            Option::None => {
                self.predator = Option::Some(Predator::new(x, y));
            },
        }
    }

    /// Replaces the separation gain; effective from the next tick.
    pub fn update_avoid_factor(&mut self, avoid_factor: i64)
        requires
            old(self).wf(),
            -PARAM_MAX <= avoid_factor <= PARAM_MAX,
        ensures
            *final(self) == (World {
                params: (WorldParams { avoid_factor, ..old(self).params }),
                ..*old(self)
            }),
            final(self).wf(),
    {
        self.params.avoid_factor = avoid_factor;
    }

    /// Replaces the alignment/cohesion radius; effective from the
    /// next tick.
    pub fn update_visible_range(&mut self, visible_range: i64)
        requires
            old(self).wf(),
            -PARAM_MAX <= visible_range <= PARAM_MAX,
        ensures
            *final(self) == (World {
                params: (WorldParams { visible_range, ..old(self).params }),
                ..*old(self)
            }),
            final(self).wf(),
    {
        self.params.visible_range = visible_range;
    }

    /// Replaces the alignment gain; effective from the next tick.
    pub fn update_matching_factor(&mut self, matching_factor: i64)
        requires
            old(self).wf(),
            -PARAM_MAX <= matching_factor <= PARAM_MAX,
        ensures
            *final(self) == (World {
                params: (WorldParams { matching_factor, ..old(self).params }),
                ..*old(self)
            }),
            final(self).wf(),
    {
        self.params.matching_factor = matching_factor;
    }

    /// Replaces the boundary nudge increment; effective from the next
    /// tick.
    pub fn update_turn_factor(&mut self, turn_factor: i64)
        requires
            old(self).wf(),
            -PARAM_MAX <= turn_factor <= PARAM_MAX,
        ensures
            *final(self) == (World {
                params: (WorldParams { turn_factor, ..old(self).params }),
                ..*old(self)
            }),
            final(self).wf(),
    {
        self.params.turn_factor = turn_factor;
    }

    /// Replaces the upper speed bound; effective from the next tick.
    pub fn update_max_speed(&mut self, max_speed: i64)
        requires
            old(self).wf(),
            -PARAM_MAX <= max_speed <= PARAM_MAX,
        ensures
            *final(self) == (World {
                params: (WorldParams { max_speed, ..old(self).params }),
                ..*old(self)
            }),
            final(self).wf(),
    {
        self.params.max_speed = max_speed;
    }

    /// Replaces the lower speed bound; effective from the next tick.
    pub fn update_min_speed(&mut self, min_speed: i64)
        requires
            old(self).wf(),
            -PARAM_MAX <= min_speed <= PARAM_MAX,
        ensures
            *final(self) == (World {
                params: (WorldParams { min_speed, ..old(self).params }),
                ..*old(self)
            }),
            final(self).wf(),
    {
        self.params.min_speed = min_speed;
    }

    /// Replaces the cohesion gain; effective from the next tick.
    pub fn update_centering_factor(&mut self, centering_factor: i64)
        requires
            old(self).wf(),
            -PARAM_MAX <= centering_factor <= PARAM_MAX,
        ensures
            *final(self) == (World {
                params: (WorldParams { centering_factor, ..old(self).params }),
                ..*old(self)
            }),
            final(self).wf(),
    {
        self.params.centering_factor = centering_factor;
    }

    /// Replaces the separation radius; effective from the next tick.
    pub fn update_protected_range(&mut self, protected_range: i64)
        requires
            old(self).wf(),
            -PARAM_MAX <= protected_range <= PARAM_MAX,
        ensures
            *final(self) == (World {
                params: (WorldParams { protected_range, ..old(self).params }),
                ..*old(self)
            }),
            final(self).wf(),
    {
        self.params.protected_range = protected_range;
    }

    /// Replaces the predator push magnitude; effective from the next
    /// tick.
    pub fn update_predator_turn_factor(&mut self, predator_turn_factor: i64)
        requires
            old(self).wf(),
            -PARAM_MAX <= predator_turn_factor <= PARAM_MAX,
        ensures
            *final(self) == (World {
                params: (WorldParams { predator_turn_factor, ..old(self).params }),
                ..*old(self)
            }),
            final(self).wf(),
    {
        self.params.predator_turn_factor = predator_turn_factor;
    }

    /// Replaces the predator-avoidance radius; effective from the
    /// next tick.
    pub fn update_predator_range(&mut self, predator_range: i64)
        requires
            old(self).wf(),
            -PARAM_MAX <= predator_range <= PARAM_MAX,
        ensures
            *final(self) == (World {
                params: (WorldParams { predator_range, ..old(self).params }),
                ..*old(self)
            }),
            final(self).wf(),
    {
        self.params.predator_range = predator_range;
    }
}

} // verus!
