//! A flock of boids on fixed-point integer coordinates: agents steer by
//! separation, alignment and cohesion, keep under a speed limit and turn back
//! before the edge of the frame.

pub mod arith;
pub mod boids;
pub mod validate;
pub mod flock;

pub use arith::SCALE;
pub use boids::{
    clamp_position_to_stay_in_frame, limit_speed, maybe_reflect_off_boundaries, Boid,
    FrameDimensions, COORD_LIMIT, EDGE_INSET, TIME_PER_FRAME,
};
pub use flock::{Flock, MAX_FLOCK_SIZE, MAX_SPEED};
pub use validate::{
    check_factor_between_zero_and_one, validate_distances, validate_factors, CreationError,
    InvalidFlockConfig,
};
