//! The flock: its configuration, its agents, and the per-tick update that
//! classifies each agent's neighbours and steers it by them.

use crate::arith::SCALE;
use crate::boids::{
    abs, align_axis, clamp_axis, EDGE_INSET, cohere_axis, limit_speed, limited, maybe_reflect_off_boundaries, near,
    norm_sq, reflect_axis, separate_axis, within, Boid, FrameDimensions, COORD_LIMIT, TIME_PER_FRAME,
};
use crate::validate::{
    config_issues, issues_of, option_issues, validate_distances, validate_factors,
    InvalidFlockConfig,
};
use rand::Rng;
use vstd::prelude::*;

verus! {

/// Most agents a flock holds, so that sums of their coordinates fit in `i64`.
pub const MAX_FLOCK_SIZE: usize = 1_000_000_000;

/// Fastest an agent moves: eight pixels per tick.
pub const MAX_SPEED: i64 = 8 * SCALE;

/// A flock's configuration.
pub struct FlockConfig {
    pub crowding_radius: int,
    pub local_radius: int,
    pub repulsion: int,
    pub adhesion: int,
    pub cohesion: int,
    pub max_speed: int,
}

impl FlockConfig {
    /// Factors in `[0, 1]`, a local radius beyond the crowding radius, and a
    /// speed limit a flock can hold.
    pub open spec fn is_valid(&self) -> bool {
        &&& 0 <= self.repulsion <= SCALE
        &&& 0 <= self.adhesion <= SCALE
        &&& 0 <= self.cohesion <= SCALE
        &&& self.crowding_radius < self.local_radius
        &&& 0 <= self.max_speed <= COORD_LIMIT
    }
}

/// A set of agents that steer by a shared, validated configuration.
#[derive(Debug)]
pub struct Flock {
    boids: Vec<Boid>,
    max_dist_before_boid_is_no_longer_crowded: i64,
    max_dist_of_local_boid: i64,
    repulsion_factor: i64,
    adhesion_factor: i64,
    cohesion_factor: i64,
    boid_max_speed: i64,
}

/// A flock as its configuration and its agents in order.
pub struct FlockView {
    pub config: FlockConfig,
    pub boids: Seq<Boid>,
}

impl View for Flock {
    type V = FlockView;

    closed spec fn view(&self) -> FlockView {
        FlockView {
            config: FlockConfig {
                crowding_radius: self.max_dist_before_boid_is_no_longer_crowded as int,
                local_radius: self.max_dist_of_local_boid as int,
                repulsion: self.repulsion_factor as int,
                adhesion: self.adhesion_factor as int,
                cohesion: self.cohesion_factor as int,
                max_speed: self.boid_max_speed as int,
            },
            boids: self.boids@,
        }
    }
}

/// No more agents than a flock holds, each within the flock's range.
pub open spec fn agents_in_range(s: Seq<Boid>) -> bool {
    s.len() <= MAX_FLOCK_SIZE && forall|i: int| 0 <= i < s.len() ==> #[trigger] s[i].in_range()
}

/// What agent `i` learns of the others: how many crowd it and the sum of
/// their positions; how many are local and the sums of their positions and
/// velocities.
pub struct Tally {
    pub crowding: int,
    pub crowding_pos: (int, int),
    pub local: int,
    pub local_pos: (int, int),
    pub local_vel: (int, int),
}

/// The tally of agent `i` over the first `k` agents of `s`. An agent that
/// crowds `i` counts as crowding only; one within the local radius and not
/// crowding counts as local; agent `i` itself is skipped.
pub open spec fn tally(s: Seq<Boid>, i: int, c: FlockConfig, k: int) -> Tally
    decreases k,
{
    if k <= 0 {
        Tally { crowding: 0, crowding_pos: (0, 0), local: 0, local_pos: (0, 0), local_vel: (0, 0) }
    } else {
        let t = tally(s, i, c, k - 1);
        let o = s[k - 1];
        if k - 1 == i {
            t
        } else if near(s[i], o, c.crowding_radius) {
            Tally {
                crowding: t.crowding + 1,
                crowding_pos: (t.crowding_pos.0 + o.pos().0, t.crowding_pos.1 + o.pos().1),
                ..t
            }
        } else if near(s[i], o, c.local_radius) {
            Tally {
                local: t.local + 1,
                local_pos: (t.local_pos.0 + o.pos().0, t.local_pos.1 + o.pos().1),
                local_vel: (t.local_vel.0 + o.vel().0, t.local_vel.1 + o.vel().1),
                ..t
            }
        } else {
            t
        }
    }
}

/// `me`'s velocity after separation from the crowding agents, then alignment
/// with and cohesion toward the local ones; each rule only where it has
/// agents to act on.
pub open spec fn steered(me: Boid, t: Tally, c: FlockConfig) -> (int, int) {
    let v = me.vel();
    let p = me.pos();
    let v1 = if t.crowding > 0 {
        (
            separate_axis(v.0, p.0, t.crowding_pos.0, t.crowding, c.repulsion),
            separate_axis(v.1, p.1, t.crowding_pos.1, t.crowding, c.repulsion),
        )
    } else {
        v
    };
    let v2 = if t.local > 0 {
        (
            align_axis(v1.0, t.local_vel.0, t.local, c.adhesion),
            align_axis(v1.1, t.local_vel.1, t.local, c.adhesion),
        )
    } else {
        v1
    };
    if t.local > 0 {
        (
            cohere_axis(v2.0, p.0, t.local_pos.0, t.local, c.cohesion),
            cohere_axis(v2.1, p.1, t.local_pos.1, t.local, c.cohesion),
        )
    } else {
        v2
    }
}

/// Position and velocity of agent `i` after one tick: steer it, limit its
/// speed, move it and put it back inside the frame, then reflect its velocity
/// where the next step would reach an edge.
pub open spec fn next_state(s: Seq<Boid>, i: int, c: FlockConfig, d: FrameDimensions) -> (
    (int, int),
    (int, int),
) {
    let me = s[i];
    let v = limited(steered(me, tally(s, i, c, s.len() as int), c), c.max_speed);
    let p = (
        clamp_axis(me.pos().0 + v.0 * TIME_PER_FRAME, d.width as int),
        clamp_axis(me.pos().1 + v.1 * TIME_PER_FRAME, d.height as int),
    );
    (p, (reflect_axis(p.0, v.0, d.width as int), reflect_axis(p.1, v.1, d.height as int)))
}

pub open spec fn is_zero(b: Boid) -> bool {
    b.pos() == (0int, 0int) && b.vel() == (0int, 0int)
}

/// Where a randomly placed agent may start: within a tenth of the frame's
/// extent of its centre on each axis, and so inside the frame, with each
/// velocity component in `[-max_speed, max_speed]`.
pub open spec fn placed_at_start(b: Boid, c: FlockConfig, d: FrameDimensions) -> bool {
    &&& abs(b.pos().0 - d.width / 2) <= d.width / 10
    &&& abs(b.pos().1 - d.height / 2) <= d.height / 10
    &&& 0 <= b.pos().0 <= d.width
    &&& 0 <= b.pos().1 <= d.height
    &&& -c.max_speed <= b.vel().0 <= c.max_speed
    &&& -c.max_speed <= b.vel().1 <= c.max_speed
}

/// Relies on rand's `thread_rng` and `Rng::gen_range` over an inclusive range:
/// the value drawn lies between both ends, and the call panics only on an
/// empty range.
#[verifier::external_body]
fn random_between(low: i64, high: i64) -> (r: i64)
    requires
        low <= high,
    ensures
        low <= r <= high,
{
    rand::thread_rng().gen_range(low..=high)
}

/// Each component of a vector whose norm is at most `max` lies in `[-max, max]`.
proof fn lemma_components_bounded(v: (int, int), max: int)
    requires
        max >= 0,
        norm_sq(v) <= max * max,
    ensures
        -max <= v.0 <= max,
        -max <= v.1 <= max,
{
    assert(v.0 * v.0 >= 0 && v.1 * v.1 >= 0) by (nonlinear_arith);
    lemma_square_bounded(v.0, max);
    lemma_square_bounded(v.1, max);
}

proof fn lemma_square_bounded(x: int, max: int)
    requires
        max >= 0,
        x * x <= max * max,
    ensures
        -max <= x <= max,
{
    if x > max {
        assert(x * x > max * max) by (nonlinear_arith)
            requires
                x > max,
                max >= 0,
        ;
    } else if x < -max {
        assert(x * x > max * max) by (nonlinear_arith)
            requires
                x < -max,
                max >= 0,
        ;
    }
}

impl Flock {
    /// The configuration is valid and every agent lies within range.
    pub open spec fn is_valid(&self) -> bool {
        self@.config.is_valid() && agents_in_range(self@.boids)
    }

    /// A flock of `flock_size` agents at rest at the origin, or every fault of
    /// the configuration when it has any. Agents move at most `MAX_SPEED`.
    pub fn new(
        flock_size: usize,
        max_dist_before_boid_is_crowded: i64,
        max_dist_of_local_boid: i64,
        repulsion_factor: i64,
        adhesion_factor: i64,
        cohesion_factor: i64,
    ) -> (r: Result<Flock, InvalidFlockConfig>)
        requires
            flock_size <= MAX_FLOCK_SIZE,
        ensures
            r.is_ok() <==> config_issues(
                max_dist_before_boid_is_crowded as int,
                max_dist_of_local_boid as int,
                repulsion_factor as int,
                adhesion_factor as int,
                cohesion_factor as int,
            ).len() == 0,
            r matches Ok(f) ==> {
                &&& f.is_valid()
                &&& f@.config == (FlockConfig {
                    crowding_radius: max_dist_before_boid_is_crowded as int,
                    local_radius: max_dist_of_local_boid as int,
                    repulsion: repulsion_factor as int,
                    adhesion: adhesion_factor as int,
                    cohesion: cohesion_factor as int,
                    max_speed: MAX_SPEED as int,
                })
                &&& f@.boids.len() == flock_size
                &&& forall|i: int| 0 <= i < flock_size ==> is_zero(#[trigger] f@.boids[i])
            },
            r matches Err(e) ==> issues_of(e.errors@) == config_issues(
                max_dist_before_boid_is_crowded as int,
                max_dist_of_local_boid as int,
                repulsion_factor as int,
                adhesion_factor as int,
                cohesion_factor as int,
            ),
    {
        match Self::validate(
            max_dist_before_boid_is_crowded,
            max_dist_of_local_boid,
            repulsion_factor,
            adhesion_factor,
            cohesion_factor,
        ) {
            Err(e) => {
                return Err(e);
            },
            Ok(()) => {},
        }
        let flock = Flock {
            boids: Self::generate_boids(flock_size),
            max_dist_before_boid_is_no_longer_crowded: max_dist_before_boid_is_crowded,
            max_dist_of_local_boid,
            repulsion_factor,
            adhesion_factor,
            cohesion_factor,
            boid_max_speed: MAX_SPEED,
        };
        proof {
            assert forall|i: int| 0 <= i < flock.boids@.len() implies flock.boids@[i].in_range() by {
                assert(is_zero(flock.boids@[i]));
            }
        }
        Ok(flock)
    }

    /// Every fault of the configuration, or `Ok` when it has none.
    fn validate(
        max_dist_before_boid_is_crowded: i64,
        max_dist_of_local_boid: i64,
        repulsion_factor: i64,
        adhesion_factor: i64,
        cohesion_factor: i64,
    ) -> (r: Result<(), InvalidFlockConfig>)
        ensures
            r.is_ok() <==> config_issues(
                max_dist_before_boid_is_crowded as int,
                max_dist_of_local_boid as int,
                repulsion_factor as int,
                adhesion_factor as int,
                cohesion_factor as int,
            ).len() == 0,
            r matches Err(e) ==> issues_of(e.errors@) == config_issues(
                max_dist_before_boid_is_crowded as int,
                max_dist_of_local_boid as int,
                repulsion_factor as int,
                adhesion_factor as int,
                cohesion_factor as int,
            ),
    {
        let mut errors = validate_factors(repulsion_factor, adhesion_factor, cohesion_factor);
        let distance_error = validate_distances(&max_dist_before_boid_is_crowded, &max_dist_of_local_boid);
        let ghost before = errors@;
        if let Some(creation_error) = distance_error {
            errors.push(creation_error);
        }
        assert(issues_of(errors@) =~= issues_of(before) + option_issues(distance_error));
        if errors.len() > 0 {
            return Err(InvalidFlockConfig { errors });
        }
        assert(issues_of(errors@).len() == errors@.len());
        Ok(())
    }

    /// `flock_size` agents at rest at the origin.
    fn generate_boids(flock_size: usize) -> (r: Vec<Boid>)
        ensures
            r@.len() == flock_size,
            forall|i: int| 0 <= i < flock_size ==> is_zero(#[trigger] r@[i]),
    {
        let mut boids: Vec<Boid> = Vec::new();
        let mut n: usize = 0;
        while n < flock_size
            invariant
                n <= flock_size,
                boids@.len() == n,
                forall|i: int| 0 <= i < n ==> is_zero(#[trigger] boids@[i]),
            decreases flock_size - n,
        {
            boids.push(Boid::new(0, 0, 0, 0));
            n = n + 1;
        }
        boids
    }

    /// Agent `boid_to_update` after one tick, computed from the agents as they
    /// stand; the flock is not changed.
    pub fn update_boid(&self, boid_to_update: usize, dimensions: &FrameDimensions) -> (r: Boid)
        requires
            self.is_valid(),
            boid_to_update < self@.boids.len(),
            dimensions.is_valid(),
        ensures
            (r.pos(), r.vel()) == next_state(self@.boids, boid_to_update as int, self@.config, *dimensions),
            r.in_range(),
    {
        let ghost s = self@.boids;
        let ghost c = self@.config;
        let mut current_boid = self.boids[boid_to_update];
        let mut total_x_dist_of_crowding_boids: i64 = 0;
        let mut total_y_dist_of_crowding_boids: i64 = 0;
        let mut num_crowding_boids: i64 = 0;
        let mut total_of_local_boids = Boid::new(0, 0, 0, 0);
        let mut num_local_boids: i64 = 0;
        let mut boid_idx: usize = 0;
        while boid_idx < self.boids.len()
            invariant
                self.is_valid(),
                s == self@.boids,
                c == self@.config,
                boid_to_update < s.len(),
                boid_idx <= s.len(),
                current_boid == s[boid_to_update as int],
                tally(s, boid_to_update as int, c, boid_idx as int) == (Tally {
                    crowding: num_crowding_boids as int,
                    crowding_pos: (total_x_dist_of_crowding_boids as int, total_y_dist_of_crowding_boids as int),
                    local: num_local_boids as int,
                    local_pos: total_of_local_boids.pos(),
                    local_vel: total_of_local_boids.vel(),
                }),
                0 <= num_crowding_boids <= boid_idx,
                0 <= num_local_boids <= boid_idx,
                within(
                    (total_x_dist_of_crowding_boids, total_y_dist_of_crowding_boids),
                    num_crowding_boids * COORD_LIMIT,
                ),
                within(total_of_local_boids.x_y_positions, num_local_boids * COORD_LIMIT),
                within(total_of_local_boids.x_y_velocities, num_local_boids * COORD_LIMIT),
            decreases s.len() - boid_idx,
        {
            if boid_idx != boid_to_update {
                let other_boid = self.boids[boid_idx];
                assert(other_boid.in_range());
                if current_boid.is_crowded_by_boid(&other_boid, &self.max_dist_before_boid_is_no_longer_crowded) {
                    num_crowding_boids = num_crowding_boids + 1;
                    total_x_dist_of_crowding_boids = total_x_dist_of_crowding_boids + other_boid.x_y_positions.0;
                    total_y_dist_of_crowding_boids = total_y_dist_of_crowding_boids + other_boid.x_y_positions.1;
                } else if current_boid.is_within_sight_of_local_boid(&other_boid, &self.max_dist_of_local_boid) {
                    num_local_boids = num_local_boids + 1;
                    total_of_local_boids.add_assign(other_boid);
                }
            }
            boid_idx = boid_idx + 1;
        }
        let ghost t = tally(s, boid_to_update as int, c, s.len() as int);
        assert(current_boid.in_range());
        if num_crowding_boids > 0 {
            let new_vel = current_boid.uncrowd_boid(
                num_crowding_boids,
                (total_x_dist_of_crowding_boids, total_y_dist_of_crowding_boids),
                &self.repulsion_factor,
            );
            current_boid.x_y_velocities = new_vel;
        }
        assert(within(current_boid.x_y_velocities, 3 * COORD_LIMIT));
        if num_local_boids > 0 {
            let new_vel = current_boid.align_boid(
                num_local_boids,
                total_of_local_boids.x_y_velocities,
                &self.adhesion_factor,
            );
            current_boid.x_y_velocities = new_vel;
            let new_vel = current_boid.cohere_boid(
                num_local_boids,
                total_of_local_boids.x_y_positions,
                &self.cohesion_factor,
            );
            current_boid.x_y_velocities = new_vel;
        }
        assert(current_boid.vel() == steered(s[boid_to_update as int], t, c));
        let limited_vel = limit_speed(current_boid.x_y_velocities, self.boid_max_speed);
        proof {
            lemma_components_bounded((limited_vel.0 as int, limited_vel.1 as int), c.max_speed);
        }
        current_boid.x_y_velocities = limited_vel;
        current_boid = current_boid.move_boid(dimensions);
        let reflected_vel = maybe_reflect_off_boundaries(&current_boid, dimensions);
        current_boid.x_y_velocities = reflected_vel;
        current_boid
    }

    /// Advances every agent by one tick. Each new agent is computed from the
    /// agents as they stood before the tick, and all are replaced together, so
    /// the order of the agents does not bias the result.
    pub fn update_boids(&mut self, dimensions: &FrameDimensions)
        requires
            old(self).is_valid(),
            dimensions.is_valid(),
        ensures
            final(self).is_valid(),
            final(self)@.config == old(self)@.config,
            final(self)@.boids.len() == old(self)@.boids.len(),
            forall|i: int|
                0 <= i < old(self)@.boids.len() ==> ((#[trigger] final(self)@.boids[i]).pos(),
                    final(self)@.boids[i].vel()) == next_state(
                    old(self)@.boids,
                    i,
                    old(self)@.config,
                    *dimensions,
                ),
    {
        let n = self.boids.len();
        let mut next_boids: Vec<Boid> = Vec::new();
        let mut i: usize = 0;
        while i < n
            invariant
                self.is_valid(),
                n == self@.boids.len(),
                i <= n,
                dimensions.is_valid(),
                next_boids@.len() == i,
                forall|j: int|
                    0 <= j < i ==> ((#[trigger] next_boids@[j]).pos(), next_boids@[j].vel())
                        == next_state(self@.boids, j, self@.config, *dimensions),
                forall|j: int| 0 <= j < i ==> (#[trigger] next_boids@[j]).in_range(),
            decreases n - i,
        {
            let next = self.update_boid(i, dimensions);
            next_boids.push(next);
            i = i + 1;
        }
        self.boids = next_boids;
    }

    /// Places every agent at random within a tenth of the frame's extent of its
    /// centre on each axis, with each velocity component drawn from
    /// `[-max_speed, max_speed]`. The number of agents is kept.
    pub fn randomly_generate_boids(&mut self, dimensions: &FrameDimensions)
        requires
            old(self).is_valid(),
            dimensions.is_valid(),
        ensures
            final(self).is_valid(),
            final(self)@.config == old(self)@.config,
            final(self)@.boids.len() == old(self)@.boids.len(),
            forall|i: int|
                0 <= i < final(self)@.boids.len() ==> placed_at_start(
                    #[trigger] final(self)@.boids[i],
                    old(self)@.config,
                    *dimensions,
                ),
    {
        let n = self.boids.len();
        let mid_frame_x = dimensions.width / 2;
        let mid_frame_y = dimensions.height / 2;
        let max_starting_dist_from_mid_x = dimensions.width / 10;
        let max_starting_dist_from_mid_y = dimensions.height / 10;
        let mut boids: Vec<Boid> = Vec::new();
        let mut i: usize = 0;
        while i < n
            invariant
                self.is_valid(),
                n == self@.boids.len(),
                i <= n,
                dimensions.is_valid(),
                mid_frame_x == dimensions.width / 2,
                mid_frame_y == dimensions.height / 2,
                max_starting_dist_from_mid_x == dimensions.width / 10,
                max_starting_dist_from_mid_y == dimensions.height / 10,
                boids@.len() == i,
                forall|j: int|
                    0 <= j < i ==> placed_at_start(#[trigger] boids@[j], self@.config, *dimensions),
            decreases n - i,
        {
            let x = mid_frame_x + random_between(-max_starting_dist_from_mid_x, max_starting_dist_from_mid_x);
            let y = mid_frame_y + random_between(-max_starting_dist_from_mid_y, max_starting_dist_from_mid_y);
            let x_vel = random_between(-self.boid_max_speed, self.boid_max_speed);
            let y_vel = random_between(-self.boid_max_speed, self.boid_max_speed);
            boids.push(Boid::new(x, y, x_vel, y_vel));
            i = i + 1;
        }
        proof {
            assert forall|j: int| 0 <= j < boids@.len() implies boids@[j].in_range() by {
                assert(placed_at_start(boids@[j], self@.config, *dimensions));
            }
        }
        self.boids = boids;
    }

    /// How many agents the flock holds.
    pub fn flock_size(&self) -> (r: usize)
        ensures
            r == self@.boids.len(),
    {
        self.boids.len()
    }

    /// The agents, in order.
    pub fn boids(&self) -> (r: &Vec<Boid>)
        ensures
            r@ == self@.boids,
    {
        &self.boids
    }

    /// Replaces the agents, keeping the configuration.
    pub fn set_boids(&mut self, boids: Vec<Boid>)
        requires
            agents_in_range(boids@),
        ensures
            final(self)@.config == old(self)@.config,
            final(self)@.boids == boids@,
    {
        self.boids = boids;
    }

    /// The distance on each axis under which another agent crowds an agent.
    pub fn max_dist_before_boid_is_no_longer_crowded(&self) -> (r: i64)
        ensures
            r == self@.config.crowding_radius,
    {
        self.max_dist_before_boid_is_no_longer_crowded
    }

    /// The distance on each axis under which another agent is local to an agent.
    pub fn max_dist_of_local_boid(&self) -> (r: i64)
        ensures
            r == self@.config.local_radius,
    {
        self.max_dist_of_local_boid
    }
}

/// With no other agent inside the local radius, agent `i`'s tally over the
/// first `k` agents is empty.
proof fn lemma_tally_alone(s: Seq<Boid>, i: int, c: FlockConfig, k: int)
    requires
        c.crowding_radius < c.local_radius,
        0 <= i < s.len(),
        k <= s.len(),
        forall|j: int| 0 <= j < s.len() && j != i ==> !near(s[i], #[trigger] s[j], c.local_radius),
    ensures
        tally(s, i, c, k).crowding == 0,
        tally(s, i, c, k).local == 0,
    decreases k,
{
    if k > 0 {
        lemma_tally_alone(s, i, c, k - 1);
        if k - 1 != i {
            assert(!near(s[i], s[k - 1], c.local_radius));
        }
    }
}

/// An agent alone at the far edge of the frame on the x axis, moving outward
/// no faster than the speed limit and by at least the edge inset per tick,
/// heads back inward after one tick, and the tick leaves it strictly inside
/// the frame.
pub proof fn agent_at_far_edge_turns_back(s: Seq<Boid>, i: int, c: FlockConfig, d: FrameDimensions)
    requires
        c.is_valid(),
        agents_in_range(s),
        d.is_valid(),
        d.width > EDGE_INSET,
        d.height > EDGE_INSET,
        0 <= i < s.len(),
        forall|j: int| 0 <= j < s.len() && j != i ==> !near(s[i], #[trigger] s[j], c.local_radius),
        s[i].pos().0 == d.width,
        EDGE_INSET <= s[i].vel().0,
        norm_sq(s[i].vel()) <= c.max_speed * c.max_speed,
    ensures
        next_state(s, i, c, d).1.0 == -s[i].vel().0,
        next_state(s, i, c, d).1.0 < 0,
        0 < next_state(s, i, c, d).0.0 < d.width,
        0 < next_state(s, i, c, d).0.1 < d.height,
{
    lemma_tally_alone(s, i, c, s.len() as int);
    let t = tally(s, i, c, s.len() as int);
    assert(steered(s[i], t, c) == s[i].vel());
    assert(limited(s[i].vel(), c.max_speed) == s[i].vel());
}

} // verus!
