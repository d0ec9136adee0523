use boids::{
    clamp_position_to_stay_in_frame, limit_speed, maybe_reflect_off_boundaries, Boid,
    FrameDimensions, SCALE,
};

/// A value in pixels (or a factor) as fixed-point steps.
fn fx(v: f32) -> i64 {
    (v * SCALE as f32).round() as i64
}

#[test]
fn test_adhesion() {
    let adhesion_factor = fx(1.0);
    let boid = Boid::new(fx(1.0), fx(1.0), fx(1.0), fx(5.0));

    let (new_x_vel, new_y_vel) = Boid::align_boid(&boid, 2, (fx(20.0), fx(0.0)), &adhesion_factor);
    assert_eq!(new_x_vel, fx(10.0));
    assert_eq!(new_y_vel, fx(0.0));
}

#[test]
fn test_no_adhesion() {
    let adhesion_factor = fx(0.0);
    let boid = Boid::new(fx(1.0), fx(1.0), fx(1.0), fx(5.0));

    let (new_x_vel, new_y_vel) = Boid::align_boid(&boid, 2, (fx(20.0), fx(0.0)), &adhesion_factor);
    assert_eq!(new_x_vel, fx(1.0));
    assert_eq!(new_y_vel, fx(5.0));
}

#[test]
fn test_half_adhesion() {
    let adhesion_factor = fx(0.5);
    let boid = Boid::new(fx(1.0), fx(1.0), fx(1.0), fx(5.0));

    let (new_x_vel, new_y_vel) = Boid::align_boid(&boid, 2, (fx(20.0), fx(0.0)), &adhesion_factor);
    assert_eq!(new_x_vel, fx(5.5));
    assert_eq!(new_y_vel, fx(2.5));
}

#[test]
fn test_boundary_reflected_when_velocity_is_zero() {
    // the agent would leave the frame on the next tick
    let boid_to_update = Boid::new(fx(1.0), fx(0.0), fx(-2.0), fx(0.0));
    let dimensions = FrameDimensions {
        width: fx(1000.0),
        height: fx(1000.0),
    };
    let updated_boid_velocities = maybe_reflect_off_boundaries(&boid_to_update, &dimensions);
    assert!(updated_boid_velocities.0 > 0);
}

#[test]
fn test_boundary_reflected_when_boid_at_boundary() {
    let dimensions = FrameDimensions {
        width: fx(1000.0),
        height: fx(1000.0),
    };

    let boid_to_update = Boid::new(dimensions.width, fx(0.0), fx(100.0), fx(0.0));
    let updated_boid_velocities = maybe_reflect_off_boundaries(&boid_to_update, &dimensions);
    assert!(updated_boid_velocities.0 < 0);
}

#[test]
fn test_crowded_boid_has_updated_velocity() {
    let boid = Boid::new(fx(1.0), fx(1.0), fx(1.0), fx(1.0));
    let other_boid = Boid::new(fx(10.0), fx(10.0), fx(1.0), fx(5.0));

    let repulsion_factor = fx(0.0);
    let (new_x_vel, new_y_vel) =
        Boid::uncrowd_boid(&boid, 1, other_boid.x_y_positions, &repulsion_factor);

    assert_eq!(new_x_vel, boid.x_y_velocities.0);
    assert_eq!(new_y_vel, boid.x_y_velocities.1);
}

#[test]
fn repulsion_pushes_away_from_neighbour_ahead() {
    let boid = Boid::new(fx(1.0), fx(1.0), fx(1.0), fx(1.0));
    let other_boid = Boid::new(fx(10.0), fx(10.0), fx(1.0), fx(5.0));
    let (new_x_vel, new_y_vel) = boid.uncrowd_boid(1, other_boid.x_y_positions, &fx(0.5));
    assert!(new_x_vel < boid.x_y_velocities.0);
    assert_eq!(new_x_vel, fx(-3.5));
    assert_eq!(new_y_vel, fx(-3.5));
}

#[test]
fn repulsion_uses_mean_of_crowd() {
    let boid = Boid::new(fx(5.0), fx(5.0), fx(0.0), fx(0.0));
    // two neighbours at (2, 5) and (4, 9): mean (3, 7)
    let (vx, vy) = boid.uncrowd_boid(2, (fx(6.0), fx(14.0)), &fx(1.0));
    assert_eq!((vx, vy), (fx(2.0), fx(-2.0)));
}

#[test]
fn cohesion_pulls_toward_mean_position() {
    let boid = Boid::new(fx(10.0), fx(10.0), fx(1.0), fx(-1.0));
    // two neighbours with mean position (20, 4)
    let (vx, vy) = boid.cohere_boid(2, (fx(40.0), fx(8.0)), &fx(0.5));
    assert_eq!(vx, fx(6.0));
    assert_eq!(vy, fx(-4.0));
}

#[test]
fn cohesion_rounds_toward_zero() {
    let boid = Boid::new(0, 0, 0, 0);
    // mean position (0.001, -0.001) scaled by a half truncates to zero
    let (vx, vy) = boid.cohere_boid(1, (1, -1), &fx(0.5));
    assert_eq!((vx, vy), (0, 0));
    // mean position of three agents summing to -0.010 is -0.003 after truncation
    let (vx, _) = boid.cohere_boid(3, (-10, 0), &fx(1.0));
    assert_eq!(vx, -3);
}

#[test]
fn crowding_is_symmetric() {
    let a = Boid::new(fx(3.0), fx(7.0), 0, 0);
    let b = Boid::new(fx(6.5), fx(4.0), 0, 0);
    for r in [0, fx(1.0), fx(3.0), fx(3.5), fx(3.6), fx(100.0)] {
        assert_eq!(a.is_crowded_by_boid(&b, &r), b.is_crowded_by_boid(&a, &r));
    }
    assert!(!a.is_crowded_by_boid(&b, &fx(3.5)));
    assert!(a.is_crowded_by_boid(&b, &fx(3.6)));
}

#[test]
fn local_sight_uses_square_neighbourhood() {
    let a = Boid::new(0, 0, 0, 0);
    // diagonal offset (4, 4) is inside a square of half-side 5 though its
    // Euclidean distance is above 5
    let b = Boid::new(fx(4.0), fx(4.0), 0, 0);
    assert!(a.is_within_sight_of_local_boid(&b, &fx(5.0)));
    assert!(!a.is_within_sight_of_local_boid(&b, &fx(4.0)));
}

#[test]
fn speed_under_limit_is_kept() {
    assert_eq!(limit_speed((fx(3.0), fx(4.0)), fx(8.0)), (fx(3.0), fx(4.0)));
    assert_eq!(limit_speed((fx(0.0), fx(-8.0)), fx(8.0)), (fx(0.0), fx(-8.0)));
}

#[test]
fn speed_over_limit_is_rescaled() {
    assert_eq!(limit_speed((fx(30.0), fx(40.0)), fx(8.0)), (fx(4.8), fx(6.4)));
    assert_eq!(limit_speed((fx(-30.0), fx(40.0)), fx(8.0)), (fx(-4.8), fx(6.4)));
}

#[test]
fn speed_limit_is_idempotent() {
    for v in [(fx(30.0), fx(40.0)), (10_500, 1_000), (-7, 123_456_789), (i64::MIN, i64::MAX)] {
        let once = limit_speed(v, fx(8.0));
        let twice = limit_speed(once, fx(8.0));
        assert_eq!(once, twice);
        let (x, y) = (once.0 as i128, once.1 as i128);
        assert!(x * x + y * y <= (fx(8.0) as i128) * (fx(8.0) as i128));
    }
}

#[test]
fn clamp_puts_coordinate_inside_frame() {
    let width = fx(800.0);
    assert_eq!(clamp_position_to_stay_in_frame(fx(-3.0), &width), fx(0.1));
    assert_eq!(clamp_position_to_stay_in_frame(0, &width), fx(0.1));
    assert_eq!(clamp_position_to_stay_in_frame(width, &width), fx(799.9));
    assert_eq!(clamp_position_to_stay_in_frame(fx(812.0), &width), fx(799.9));
    assert_eq!(clamp_position_to_stay_in_frame(fx(400.0), &width), fx(400.0));
}

#[test]
fn move_advances_by_velocity() {
    let dims = FrameDimensions {
        width: fx(800.0),
        height: fx(600.0),
    };
    let moved = Boid::new(fx(10.0), fx(20.0), fx(2.5), fx(-1.0)).move_boid(&dims);
    assert_eq!(moved, Boid::new(fx(12.5), fx(19.0), fx(2.5), fx(-1.0)));
    let escaped = Boid::new(fx(799.0), fx(1.0), fx(5.0), fx(-5.0)).move_boid(&dims);
    assert_eq!(escaped, Boid::new(fx(799.9), fx(0.1), fx(5.0), fx(-5.0)));
}

#[test]
fn reflection_keeps_velocity_away_from_edges() {
    let dims = FrameDimensions {
        width: fx(800.0),
        height: fx(600.0),
    };
    let boid = Boid::new(fx(400.0), fx(595.0), fx(3.0), fx(5.0));
    assert_eq!(maybe_reflect_off_boundaries(&boid, &dims), (fx(3.0), fx(-5.0)));
}

#[test]
fn add_assign_sums_components() {
    let mut total = Boid::new(1, 2, 3, 4);
    total.add_assign(Boid::new(10, 20, 30, 40));
    assert_eq!(total, Boid::new(11, 22, 33, 44));
}
