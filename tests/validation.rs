use boids::{
    check_factor_between_zero_and_one, validate_distances, validate_factors, CreationError, Flock,
    SCALE,
};

/// A value in pixels (or a factor) as fixed-point steps.
fn fx(v: f32) -> i64 {
    (v * SCALE as f32).round() as i64
}

#[test]
fn test_incorrect_factor_inputs() {
    let result = validate_factors(fx(2.0), fx(-4.9), fx(1.0));
    let expected_errors = vec![
        CreationError::FactorShouldBeLessThanOne("repulsion".to_string()),
        CreationError::FactorShouldBeMoreThanZero("adhesion".to_string()),
    ];
    assert_eq!(result, expected_errors);
}

#[test]
fn test_incorrect_distance_inputs() {
    let short_dist: i64 = fx(2.0);
    let long_dist: i64 = fx(20.0);
    let result = validate_distances(&long_dist, &short_dist);
    assert_eq!(
        result,
        Some(CreationError::LocalEnvironmentIsSmallerThanCrowdingEnvironment)
    );
}

#[test]
fn test_error_display() {
    assert_eq!(
        CreationError::FactorShouldBeLessThanOne("adhesion".to_string()).to_string(),
        "adhesion factor is too large and should be below zero".to_string()
    );
    assert_eq!(
        CreationError::FactorShouldBeMoreThanZero("repulsion".to_string()).to_string(),
        "repulsion factor is negative".to_string()
    );
    assert_eq!(
        CreationError::LocalEnvironmentIsSmallerThanCrowdingEnvironment.to_string(),
        "local environment is smaller than (or equal to) crowding environment".to_string()
    );
}

#[test]
fn factor_bounds_are_inclusive() {
    assert_eq!(check_factor_between_zero_and_one(0, "cohesion".to_string()), None);
    assert_eq!(check_factor_between_zero_and_one(SCALE, "cohesion".to_string()), None);
    assert_eq!(
        check_factor_between_zero_and_one(-1, "cohesion".to_string()),
        Some(CreationError::FactorShouldBeMoreThanZero("cohesion".to_string()))
    );
    assert_eq!(
        check_factor_between_zero_and_one(SCALE + 1, "cohesion".to_string()),
        Some(CreationError::FactorShouldBeLessThanOne("cohesion".to_string()))
    );
}

#[test]
fn equal_radii_are_rejected() {
    assert_eq!(
        validate_distances(&fx(5.0), &fx(5.0)),
        Some(CreationError::LocalEnvironmentIsSmallerThanCrowdingEnvironment)
    );
    assert_eq!(validate_distances(&fx(4.9), &fx(5.0)), None);
}

#[test]
fn valid_factors_give_no_errors() {
    assert!(validate_factors(fx(0.0), fx(0.5), fx(1.0)).is_empty());
}

#[test]
fn construction_reports_exactly_the_two_factor_errors() {
    let error = Flock::new(5, fx(1.0), fx(50.0), fx(2.0), fx(-4.9), fx(1.0)).unwrap_err();
    assert_eq!(
        error.errors,
        vec![
            CreationError::FactorShouldBeLessThanOne("repulsion".to_string()),
            CreationError::FactorShouldBeMoreThanZero("adhesion".to_string()),
        ]
    );
}

#[test]
fn construction_reports_all_four_errors_in_order() {
    let error = Flock::new(0, fx(2.0), fx(-4.9), fx(3.0), fx(20.0), fx(2.0)).unwrap_err();
    assert_eq!(
        error.errors,
        vec![
            CreationError::FactorShouldBeLessThanOne("repulsion".to_string()),
            CreationError::FactorShouldBeLessThanOne("adhesion".to_string()),
            CreationError::FactorShouldBeLessThanOne("cohesion".to_string()),
            CreationError::LocalEnvironmentIsSmallerThanCrowdingEnvironment,
        ]
    );
}

#[test]
fn radius_error_comes_after_factor_errors() {
    let error = Flock::new(0, fx(20.0), fx(2.0), fx(-0.1), fx(0.2), fx(1.0)).unwrap_err();
    assert_eq!(
        error.errors,
        vec![
            CreationError::FactorShouldBeMoreThanZero("repulsion".to_string()),
            CreationError::LocalEnvironmentIsSmallerThanCrowdingEnvironment,
        ]
    );
}
