//! One agent of the flock and the rules that steer it.

use crate::arith::{
    ceil_sqrt, ceil_sqrt_u128, div_trunc, is_ceil_sqrt, lemma_least_root_exists, lemma_mean_bounded,
    lemma_scaled_between, scaled, SCALE,
};
use vstd::prelude::*;

verus! {

/// Largest magnitude of a coordinate or velocity component that a flock holds.
pub const COORD_LIMIT: i64 = 1_000_000_000;

/// Ticks that pass in one frame: a position advances by velocity times this.
pub const TIME_PER_FRAME: i64 = 1;

/// How far inside the frame an agent is put back when it has left it.
pub const EDGE_INSET: i64 = 100;

/// The extent of the frame: positions run from `0` to `width` and `height`.
#[derive(Clone, Copy, Debug)]
pub struct FrameDimensions {
    pub width: i64,
    pub height: i64,
}

impl FrameDimensions {
    /// Both extents are sizes that a flock can hold as coordinates.
    pub open spec fn is_valid(&self) -> bool {
        0 <= self.width <= COORD_LIMIT && 0 <= self.height <= COORD_LIMIT
    }
}

/// An agent: its position and its velocity, each as `(x, y)`.
#[derive(Clone, Copy, Debug, PartialEq, Eq)]
pub struct Boid {
    pub x_y_positions: (i64, i64),
    pub x_y_velocities: (i64, i64),
}

pub open spec fn abs(x: int) -> int {
    if x < 0 {
        -x
    } else {
        x
    }
}

/// Both components of `v` lie in `[-bound, bound]`.
pub open spec fn within(v: (i64, i64), bound: int) -> bool {
    -bound <= v.0 <= bound && -bound <= v.1 <= bound
}

/// `b` lies inside the axis-aligned square of half-side `dist` around `a`.
pub open spec fn near(a: Boid, b: Boid, dist: int) -> bool {
    abs(a.x_y_positions.0 - b.x_y_positions.0) < dist && abs(a.x_y_positions.1
        - b.x_y_positions.1) < dist
}

/// One component of a velocity moved toward the neighbours' mean velocity.
pub open spec fn align_axis(vel: int, total_vel: int, count: int, factor: int) -> int {
    vel + scaled(div_trunc(total_vel, count) - vel, factor)
}

/// One component of a velocity pushed away from the neighbours' mean position.
pub open spec fn separate_axis(vel: int, pos: int, total_pos: int, count: int, factor: int) -> int {
    vel + scaled(pos - div_trunc(total_pos, count), factor)
}

/// One component of a velocity pulled toward the neighbours' mean position.
pub open spec fn cohere_axis(vel: int, pos: int, total_pos: int, count: int, factor: int) -> int {
    vel + scaled(div_trunc(total_pos, count) - pos, factor)
}

/// A coordinate put back strictly inside `(0, dim)` when it is not there.
pub open spec fn clamp_axis(pos: int, dim: int) -> int {
    if pos <= 0 {
        EDGE_INSET as int
    } else if pos >= dim {
        dim - EDGE_INSET
    } else {
        pos
    }
}

/// One component of a velocity, inverted when the next step would reach an edge.
pub open spec fn reflect_axis(pos: int, vel: int, dim: int) -> int {
    let next = pos + vel * TIME_PER_FRAME;
    if next >= dim || next <= 0 {
        -vel
    } else {
        vel
    }
}

pub open spec fn norm_sq(v: (int, int)) -> int {
    v.0 * v.0 + v.1 * v.1
}

/// A velocity whose norm exceeds `max`, rescaled by `max / norm`; any other
/// velocity as it is.
pub open spec fn limited(v: (int, int), max: int) -> (int, int) {
    if norm_sq(v) <= max * max {
        v
    } else {
        let s = ceil_sqrt(norm_sq(v));
        (div_trunc(v.0 * max, s), div_trunc(v.1 * max, s))
    }
}

pub open spec fn pair(v: (i64, i64)) -> (int, int) {
    (v.0 as int, v.1 as int)
}

/// `a * max / s` rounded toward zero, with `0 <= max < s`, keeps the sign of
/// `a` and does not grow it; its square times `s * s` stays under `a * a * max * max`.
proof fn lemma_shrink(a: int, max: int, s: int)
    requires
        0 <= max < s,
    ensures
        abs(div_trunc(a * max, s)) <= abs(a),
        a >= 0 ==> div_trunc(a * max, s) >= 0,
        a < 0 ==> div_trunc(a * max, s) <= 0,
        div_trunc(a * max, s) * div_trunc(a * max, s) * (s * s) <= (a * a) * (max * max),
{
    let m = abs(a);
    let q = (m * max) / s;
    assert(0 <= m * max <= m * s) by (nonlinear_arith)
        requires
            m >= 0,
            0 <= max < s,
    ;
    assert(0 <= q <= m) by (nonlinear_arith)
        requires
            0 <= m * max <= m * s,
            s > 0,
            q == (m * max) / s,
    ;
    assert(q * s <= m * max) by (nonlinear_arith)
        requires
            m * max >= 0,
            s > 0,
            q == (m * max) / s,
    ;
    assert(q * q * (s * s) <= (m * m) * (max * max)) by (nonlinear_arith)
        requires
            0 <= q * s <= m * max,
            q >= 0,
            s > 0,
    ;
    if a < 0 {
        assert(a * max == -(m * max)) by (nonlinear_arith)
            requires
                m == -a,
        ;
        assert(m * m == a * a) by (nonlinear_arith)
            requires
                m == -a,
        ;
        assert(div_trunc(a * max, s) == -q);
        assert((-q) * (-q) == q * q) by (nonlinear_arith);
    }
}

/// A limited velocity never has a norm above `max`.
pub proof fn lemma_limited_within(v: (int, int), max: int)
    requires
        max >= 0,
    ensures
        norm_sq(limited(v, max)) <= max * max,
{
    let n = norm_sq(v);
    if n > max * max {
        let s = ceil_sqrt(n);
        assert(is_ceil_sqrt(n, s)) by {
            assert(n >= 0) by (nonlinear_arith)
                requires
                    n == v.0 * v.0 + v.1 * v.1,
            ;
            lemma_least_root_exists(n);
        }
        assert(s > max) by (nonlinear_arith)
            requires
                n <= s * s,
                n > max * max,
                s >= 0,
                max >= 0,
        ;
        lemma_shrink(v.0, max, s);
        lemma_shrink(v.1, max, s);
        let q = div_trunc(v.0 * max, s);
        let r = div_trunc(v.1 * max, s);
        assert((q * q + r * r) * (s * s) <= n * (max * max)) by (nonlinear_arith)
            requires
                q * q * (s * s) <= (v.0 * v.0) * (max * max),
                r * r * (s * s) <= (v.1 * v.1) * (max * max),
                n == v.0 * v.0 + v.1 * v.1,
        ;
        assert(q * q + r * r <= max * max) by (nonlinear_arith)
            requires
                (q * q + r * r) * (s * s) <= n * (max * max),
                n <= s * s,
                s > 0,
                max >= 0,
        ;
    }
}

/// A total over `count` agents whose components each lie in the flock's range.
pub open spec fn bounded_total(total: (i64, i64), count: int) -> bool {
    within(total, count * COORD_LIMIT)
}

/// `value` times the fixed-point `factor`, rounded toward zero.
fn scale_by_factor(value: i64, factor: i64) -> (r: i64)
    requires
        -8 * COORD_LIMIT <= value <= 8 * COORD_LIMIT,
        0 <= factor <= SCALE,
    ensures
        r == scaled(value as int, factor as int),
        value >= 0 ==> 0 <= r <= value,
        value < 0 ==> value <= r <= 0,
{
    assert(-8 * COORD_LIMIT * SCALE <= value * factor <= 8 * COORD_LIMIT * SCALE) by (nonlinear_arith)
        requires
            -8 * COORD_LIMIT <= value <= 8 * COORD_LIMIT,
            0 <= factor <= SCALE,
    ;
    proof {
        lemma_scaled_between(value as int, factor as int);
    }
    value * factor / SCALE
}

/// Puts a coordinate back strictly inside `(0, max_in_direction)` when it is
/// at or beyond either edge.
pub fn clamp_position_to_stay_in_frame(co_ord: i64, max_in_direction: &i64) -> (r: i64)
    requires
        *max_in_direction >= 0,
    ensures
        r == clamp_axis(co_ord as int, *max_in_direction as int),
{
    let mut current_distance_in_direction = co_ord;
    if current_distance_in_direction <= 0 {
        current_distance_in_direction = EDGE_INSET;
    } else if current_distance_in_direction >= *max_in_direction {
        current_distance_in_direction = *max_in_direction - EDGE_INSET;
    }
    current_distance_in_direction
}

/// Rescales a velocity whose norm exceeds `max_boid_speed` by
/// `max_boid_speed / norm`, so that its norm no longer exceeds it; returns any
/// other velocity unchanged.
pub fn limit_speed(x_y_velocities: (i64, i64), max_boid_speed: i64) -> (r: (i64, i64))
    requires
        max_boid_speed >= 0,
    ensures
        pair(r) == limited(pair(x_y_velocities), max_boid_speed as int),
        norm_sq(pair(r)) <= max_boid_speed * max_boid_speed,
{
    proof {
        lemma_limited_within(pair(x_y_velocities), max_boid_speed as int);
    }
    let x_vel: i128 = x_y_velocities.0 as i128;
    let y_vel: i128 = x_y_velocities.1 as i128;
    let abs_x: u128 = if x_vel < 0 {
        (-x_vel) as u128
    } else {
        x_vel as u128
    };
    let abs_y: u128 = if y_vel < 0 {
        (-y_vel) as u128
    } else {
        y_vel as u128
    };
    assert(abs_x * abs_x <= 0x4000_0000_0000_0000_0000_0000_0000_0000) by (nonlinear_arith)
        requires
            abs_x <= 0x8000_0000_0000_0000,
    ;
    assert(abs_y * abs_y <= 0x4000_0000_0000_0000_0000_0000_0000_0000) by (nonlinear_arith)
        requires
            abs_y <= 0x8000_0000_0000_0000,
    ;
    assert(abs_x * abs_x == x_vel * x_vel) by (nonlinear_arith)
        requires
            abs_x == x_vel || abs_x == -x_vel,
    ;
    assert(abs_y * abs_y == y_vel * y_vel) by (nonlinear_arith)
        requires
            abs_y == y_vel || abs_y == -y_vel,
    ;
    let speed_sq: u128 = abs_x * abs_x + abs_y * abs_y;
    let max: u128 = max_boid_speed as u128;
    assert(max * max < 0x4000_0000_0000_0000_0000_0000_0000_0000) by (nonlinear_arith)
        requires
            max < 0x8000_0000_0000_0000,
    ;
    if speed_sq <= max * max {
        return x_y_velocities;
    }
    let root = ceil_sqrt_u128(speed_sq);
    assert(root > max) by (nonlinear_arith)
        requires
            speed_sq <= root * root,
            speed_sq > max * max,
    ;
    proof {
        lemma_shrink(x_vel as int, max_boid_speed as int, root as int);
        lemma_shrink(y_vel as int, max_boid_speed as int, root as int);
    }
    assert(-0x4000_0000_0000_0000_0000_0000_0000_0000 <= x_vel * max_boid_speed
        <= 0x4000_0000_0000_0000_0000_0000_0000_0000) by (nonlinear_arith)
        requires
            -0x8000_0000_0000_0000 <= x_vel <= 0x8000_0000_0000_0000,
            0 <= max_boid_speed <= 0x8000_0000_0000_0000,
    ;
    assert(-0x4000_0000_0000_0000_0000_0000_0000_0000 <= y_vel * max_boid_speed
        <= 0x4000_0000_0000_0000_0000_0000_0000_0000) by (nonlinear_arith)
        requires
            -0x8000_0000_0000_0000 <= y_vel <= 0x8000_0000_0000_0000,
            0 <= max_boid_speed <= 0x8000_0000_0000_0000,
    ;
    let scaled_x: i128 = x_vel * (max_boid_speed as i128) / (root as i128);
    let scaled_y: i128 = y_vel * (max_boid_speed as i128) / (root as i128);
    (scaled_x as i64, scaled_y as i64)
}

/// The velocity with each component inverted whose one-tick projection from
/// the current position would reach or pass an edge of the frame.
pub fn maybe_reflect_off_boundaries(boid_to_update: &Boid, dimensions: &FrameDimensions) -> (r: (
    i64,
    i64,
))
    requires
        boid_to_update.x_y_velocities.0 > i64::MIN,
        boid_to_update.x_y_velocities.1 > i64::MIN,
    ensures
        r.0 == reflect_axis(
            boid_to_update.x_y_positions.0 as int,
            boid_to_update.x_y_velocities.0 as int,
            dimensions.width as int,
        ),
        r.1 == reflect_axis(
            boid_to_update.x_y_positions.1 as int,
            boid_to_update.x_y_velocities.1 as int,
            dimensions.height as int,
        ),
{
    let mut new_x_vel = boid_to_update.x_y_velocities.0;
    let mut new_y_vel = boid_to_update.x_y_velocities.1;
    let time: i128 = TIME_PER_FRAME as i128;
    assert(new_x_vel * time == new_x_vel && new_y_vel * time == new_y_vel) by (nonlinear_arith)
        requires
            time == 1,
    ;
    let projected_x_position: i128 = boid_to_update.x_y_positions.0 as i128 + new_x_vel as i128
        * time;
    let projected_y_position: i128 = boid_to_update.x_y_positions.1 as i128 + new_y_vel as i128
        * time;
    if projected_x_position >= dimensions.width as i128 || projected_x_position <= 0 {
        new_x_vel = -boid_to_update.x_y_velocities.0;
    }
    if projected_y_position >= dimensions.height as i128 || projected_y_position <= 0 {
        new_y_vel = -boid_to_update.x_y_velocities.1;
    }
    (new_x_vel, new_y_vel)
}

impl Boid {
    /// Positions and velocities within the range a flock holds.
    pub open spec fn in_range(&self) -> bool {
        within(self.x_y_positions, COORD_LIMIT as int) && within(
            self.x_y_velocities,
            COORD_LIMIT as int,
        )
    }

    /// Positions within the flock's range and velocities within four times it:
    /// the agents that the steering rules accept.
    pub open spec fn steerable(&self) -> bool {
        within(self.x_y_positions, COORD_LIMIT as int) && within(
            self.x_y_velocities,
            4 * COORD_LIMIT,
        )
    }

    pub open spec fn pos(&self) -> (int, int) {
        pair(self.x_y_positions)
    }

    pub open spec fn vel(&self) -> (int, int) {
        pair(self.x_y_velocities)
    }

    pub fn new(x_pos: i64, y_pos: i64, x_vel: i64, y_vel: i64) -> (r: Boid)
        ensures
            r.x_y_positions == (x_pos, y_pos),
            r.x_y_velocities == (x_vel, y_vel),
    {
        Boid { x_y_positions: (x_pos, y_pos), x_y_velocities: (x_vel, y_vel) }
    }

    /// Whether `other_boid` is closer than `max_dist_before_boid_is_no_longer_crowded`
    /// on both axes.
    pub fn is_crowded_by_boid(self, other_boid: &Boid, max_dist_before_boid_is_no_longer_crowded: &i64) -> (r: bool)
        ensures
            r == near(self, *other_boid, *max_dist_before_boid_is_no_longer_crowded as int),
    {
        let dx: i128 = self.x_y_positions.0 as i128 - other_boid.x_y_positions.0 as i128;
        let dy: i128 = self.x_y_positions.1 as i128 - other_boid.x_y_positions.1 as i128;
        let abs_dx: i128 = if dx < 0 { -dx } else { dx };
        let abs_dy: i128 = if dy < 0 { -dy } else { dy };
        abs_dx < *max_dist_before_boid_is_no_longer_crowded as i128 && abs_dy
            < *max_dist_before_boid_is_no_longer_crowded as i128
    }

    /// Whether `other_boid` is closer than `max_dist_of_local_boid` on both axes.
    pub fn is_within_sight_of_local_boid(self, other_boid: &Boid, max_dist_of_local_boid: &i64) -> (r: bool)
        ensures
            r == near(self, *other_boid, *max_dist_of_local_boid as int),
    {
        let dx: i128 = self.x_y_positions.0 as i128 - other_boid.x_y_positions.0 as i128;
        let dy: i128 = self.x_y_positions.1 as i128 - other_boid.x_y_positions.1 as i128;
        let abs_dx: i128 = if dx < 0 { -dx } else { dx };
        let abs_dy: i128 = if dy < 0 { -dy } else { dy };
        abs_dx < *max_dist_of_local_boid as i128 && abs_dy < *max_dist_of_local_boid as i128
    }

    /// The velocity moved `adhesion_factor` of the way toward the mean of
    /// `total_x_y_local_velocities` over `num_local_boids` neighbours.
    pub fn align_boid(
        &self,
        num_local_boids: i64,
        total_x_y_local_velocities: (i64, i64),
        adhesion_factor: &i64,
    ) -> (r: (i64, i64))
        requires
            self.steerable(),
            num_local_boids >= 1,
            bounded_total(total_x_y_local_velocities, num_local_boids as int),
            0 <= *adhesion_factor <= SCALE,
        ensures
            r.0 == align_axis(
                self.x_y_velocities.0 as int,
                total_x_y_local_velocities.0 as int,
                num_local_boids as int,
                *adhesion_factor as int,
            ),
            r.1 == align_axis(
                self.x_y_velocities.1 as int,
                total_x_y_local_velocities.1 as int,
                num_local_boids as int,
                *adhesion_factor as int,
            ),
            within(r, 4 * COORD_LIMIT),
    {
        proof {
            lemma_mean_bounded(total_x_y_local_velocities.0 as int, num_local_boids as int, COORD_LIMIT as int);
            lemma_mean_bounded(total_x_y_local_velocities.1 as int, num_local_boids as int, COORD_LIMIT as int);
        }
        let average_x_vel = total_x_y_local_velocities.0 / num_local_boids;
        let average_y_vel = total_x_y_local_velocities.1 / num_local_boids;
        (
            self.x_y_velocities.0 + scale_by_factor(average_x_vel - self.x_y_velocities.0, *adhesion_factor),
            self.x_y_velocities.1 + scale_by_factor(average_y_vel - self.x_y_velocities.1, *adhesion_factor),
        )
    }

    /// The velocity pushed away from the mean of `total_x_y_dist_of_crowding_boids`
    /// over `num_crowding_boids` neighbours, by `repulsion_factor` of the offset.
    pub fn uncrowd_boid(
        &self,
        num_crowding_boids: i64,
        total_x_y_dist_of_crowding_boids: (i64, i64),
        repulsion_factor: &i64,
    ) -> (r: (i64, i64))
        requires
            self.steerable(),
            num_crowding_boids >= 1,
            bounded_total(total_x_y_dist_of_crowding_boids, num_crowding_boids as int),
            0 <= *repulsion_factor <= SCALE,
        ensures
            r.0 == separate_axis(
                self.x_y_velocities.0 as int,
                self.x_y_positions.0 as int,
                total_x_y_dist_of_crowding_boids.0 as int,
                num_crowding_boids as int,
                *repulsion_factor as int,
            ),
            r.1 == separate_axis(
                self.x_y_velocities.1 as int,
                self.x_y_positions.1 as int,
                total_x_y_dist_of_crowding_boids.1 as int,
                num_crowding_boids as int,
                *repulsion_factor as int,
            ),
            -2 * COORD_LIMIT <= r.0 - self.x_y_velocities.0 <= 2 * COORD_LIMIT,
            -2 * COORD_LIMIT <= r.1 - self.x_y_velocities.1 <= 2 * COORD_LIMIT,
    {
        proof {
            lemma_mean_bounded(total_x_y_dist_of_crowding_boids.0 as int, num_crowding_boids as int, COORD_LIMIT as int);
            lemma_mean_bounded(total_x_y_dist_of_crowding_boids.1 as int, num_crowding_boids as int, COORD_LIMIT as int);
        }
        let dist_to_ave_x_pos_of_crowding_boids = self.x_y_positions.0 - total_x_y_dist_of_crowding_boids.0
            / num_crowding_boids;
        let dist_to_ave_y_pos_of_crowding_boids = self.x_y_positions.1 - total_x_y_dist_of_crowding_boids.1
            / num_crowding_boids;
        (
            self.x_y_velocities.0 + scale_by_factor(dist_to_ave_x_pos_of_crowding_boids, *repulsion_factor),
            self.x_y_velocities.1 + scale_by_factor(dist_to_ave_y_pos_of_crowding_boids, *repulsion_factor),
        )
    }

    /// The velocity pulled toward the mean of `total_x_y_dist_of_local_boids`
    /// over `num_local_boids` neighbours, by `cohesion_factor` of the offset.
    pub fn cohere_boid(
        &self,
        num_local_boids: i64,
        total_x_y_dist_of_local_boids: (i64, i64),
        cohesion_factor: &i64,
    ) -> (r: (i64, i64))
        requires
            self.steerable(),
            num_local_boids >= 1,
            bounded_total(total_x_y_dist_of_local_boids, num_local_boids as int),
            0 <= *cohesion_factor <= SCALE,
        ensures
            r.0 == cohere_axis(
                self.x_y_velocities.0 as int,
                self.x_y_positions.0 as int,
                total_x_y_dist_of_local_boids.0 as int,
                num_local_boids as int,
                *cohesion_factor as int,
            ),
            r.1 == cohere_axis(
                self.x_y_velocities.1 as int,
                self.x_y_positions.1 as int,
                total_x_y_dist_of_local_boids.1 as int,
                num_local_boids as int,
                *cohesion_factor as int,
            ),
            -2 * COORD_LIMIT <= r.0 - self.x_y_velocities.0 <= 2 * COORD_LIMIT,
            -2 * COORD_LIMIT <= r.1 - self.x_y_velocities.1 <= 2 * COORD_LIMIT,
    {
        proof {
            lemma_mean_bounded(total_x_y_dist_of_local_boids.0 as int, num_local_boids as int, COORD_LIMIT as int);
            lemma_mean_bounded(total_x_y_dist_of_local_boids.1 as int, num_local_boids as int, COORD_LIMIT as int);
        }
        let dist_to_ave_x_pos_of_local_boids = total_x_y_dist_of_local_boids.0 / num_local_boids
            - self.x_y_positions.0;
        let dist_to_ave_y_pos_of_local_boids = total_x_y_dist_of_local_boids.1 / num_local_boids
            - self.x_y_positions.1;
        (
            self.x_y_velocities.0 + scale_by_factor(dist_to_ave_x_pos_of_local_boids, *cohesion_factor),
            self.x_y_velocities.1 + scale_by_factor(dist_to_ave_y_pos_of_local_boids, *cohesion_factor),
        )
    }

    /// The agent advanced by one frame of its velocity, its position put back
    /// inside the frame where it left it; the velocity is kept.
    pub fn move_boid(&self, frame_dimensions: &FrameDimensions) -> (r: Boid)
        requires
            self.in_range(),
            frame_dimensions.is_valid(),
        ensures
            r.x_y_positions.0 == clamp_axis(
                self.x_y_positions.0 + self.x_y_velocities.0 * TIME_PER_FRAME,
                frame_dimensions.width as int,
            ),
            r.x_y_positions.1 == clamp_axis(
                self.x_y_positions.1 + self.x_y_velocities.1 * TIME_PER_FRAME,
                frame_dimensions.height as int,
            ),
            r.x_y_velocities == self.x_y_velocities,
    {
        let new_x_pos = self.x_y_positions.0 + self.x_y_velocities.0 * TIME_PER_FRAME;
        let new_y_pos = self.x_y_positions.1 + self.x_y_velocities.1 * TIME_PER_FRAME;
        Boid {
            x_y_positions: (
                clamp_position_to_stay_in_frame(new_x_pos, &frame_dimensions.width),
                clamp_position_to_stay_in_frame(new_y_pos, &frame_dimensions.height),
            ),
            x_y_velocities: self.x_y_velocities,
        }
    }

    /// Adds `other`'s positions and velocities to this agent's, component by
    /// component.
    pub fn add_assign(&mut self, other: Boid)
        requires
            i64::MIN <= old(self).x_y_positions.0 + other.x_y_positions.0 <= i64::MAX,
            i64::MIN <= old(self).x_y_positions.1 + other.x_y_positions.1 <= i64::MAX,
            i64::MIN <= old(self).x_y_velocities.0 + other.x_y_velocities.0 <= i64::MAX,
            i64::MIN <= old(self).x_y_velocities.1 + other.x_y_velocities.1 <= i64::MAX,
        ensures
            final(self).pos() == (old(self).pos().0 + other.pos().0, old(self).pos().1 + other.pos().1),
            final(self).vel() == (old(self).vel().0 + other.vel().0, old(self).vel().1 + other.vel().1),
    {
        self.x_y_positions.0 = self.x_y_positions.0 + other.x_y_positions.0;
        self.x_y_positions.1 = self.x_y_positions.1 + other.x_y_positions.1;
        self.x_y_velocities.0 = self.x_y_velocities.0 + other.x_y_velocities.0;
        self.x_y_velocities.1 = self.x_y_velocities.1 + other.x_y_velocities.1;
    }
}

/// Whether one agent crowds another does not depend on which of the two asks:
/// the test compares absolute offsets on each axis.
pub proof fn crowded_by_is_symmetric(a: Boid, b: Boid, dist: int)
    requires
        dist >= 0,
    ensures
        near(a, b, dist) == near(b, a, dist),
{
}

/// Limiting a speed twice gives what limiting it once gives.
pub proof fn limit_speed_is_idempotent(v: (int, int), max: int)
    requires
        max >= 0,
    ensures
        limited(limited(v, max), max) == limited(v, max),
{
    lemma_limited_within(v, max);
}

/// With a repulsion factor of zero, separation leaves a velocity as it is.
pub proof fn separation_without_repulsion_keeps_velocity(vel: int, pos: int, total_pos: int, count: int)
    requires
        count >= 1,
    ensures
        separate_axis(vel, pos, total_pos, count, 0) == vel,
{
}

/// Separation from a crowd whose mean lies ahead on an axis lowers the
/// velocity on that axis, once the offset times the factor reaches one
/// fixed-point step.
pub proof fn separation_moves_away(vel: int, pos: int, total_pos: int, count: int, factor: int)
    requires
        count >= 1,
        0 < factor <= SCALE,
        (div_trunc(total_pos, count) - pos) * factor >= SCALE,
    ensures
        separate_axis(vel, pos, total_pos, count, factor) < vel,
{
    let ahead = div_trunc(total_pos, count) - pos;
    let push = (pos - div_trunc(total_pos, count)) * factor;
    assert(push == -(ahead * factor)) by (nonlinear_arith)
        requires
            push == (pos - div_trunc(total_pos, count)) * factor,
            ahead == div_trunc(total_pos, count) - pos,
    ;
    assert((ahead * factor) / (SCALE as int) >= 1) by (nonlinear_arith)
        requires
            ahead * factor >= SCALE,
    ;
}

} // verus!
