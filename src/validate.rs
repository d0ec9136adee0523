//! Checks on a flock's configuration, which report every fault they find.

use crate::arith::SCALE;
use vstd::prelude::*;

verus! {

/// One fault in a flock's configuration; a factor's fault names the factor.
#[derive(Debug, PartialEq)]
pub enum CreationError {
    FactorShouldBeMoreThanZero(String),
    FactorShouldBeLessThanOne(String),
    LocalEnvironmentIsSmallerThanCrowdingEnvironment,
}

/// What a `CreationError` says, with the factor's name as text.
pub enum ConfigIssue {
    BelowZero(Seq<char>),
    AboveOne(Seq<char>),
    LocalNotBeyondCrowding,
}

impl View for CreationError {
    type V = ConfigIssue;

    open spec fn view(&self) -> ConfigIssue {
        match self {
            CreationError::FactorShouldBeMoreThanZero(name) => ConfigIssue::BelowZero(name@),
            CreationError::FactorShouldBeLessThanOne(name) => ConfigIssue::AboveOne(name@),
            CreationError::LocalEnvironmentIsSmallerThanCrowdingEnvironment => {
                ConfigIssue::LocalNotBeyondCrowding
            },
        }
    }
}

/// The faults that a list of errors reports, in order.
pub open spec fn issues_of(errors: Seq<CreationError>) -> Seq<ConfigIssue> {
    errors.map_values(|e: CreationError| e@)
}

pub open spec fn option_issues(error: Option<CreationError>) -> Seq<ConfigIssue> {
    match error {
        Some(e) => seq![e@],
        None => seq![],
    }
}

/// The fault of a fixed-point factor outside `[0, 1]`, if any.
pub open spec fn factor_issue(value: int, name: Seq<char>) -> Seq<ConfigIssue> {
    if value < 0 {
        seq![ConfigIssue::BelowZero(name)]
    } else if value > SCALE {
        seq![ConfigIssue::AboveOne(name)]
    } else {
        seq![]
    }
}

/// The faults of the three factors: repulsion's, then adhesion's, then cohesion's.
pub open spec fn factor_issues(repulsion: int, adhesion: int, cohesion: int) -> Seq<ConfigIssue> {
    factor_issue(repulsion, "repulsion"@) + factor_issue(adhesion, "adhesion"@) + factor_issue(
        cohesion,
        "cohesion"@,
    )
}

/// The fault of a local radius that does not exceed the crowding radius, if any.
pub open spec fn distance_issues(crowding_radius: int, local_radius: int) -> Seq<ConfigIssue> {
    if crowding_radius >= local_radius {
        seq![ConfigIssue::LocalNotBeyondCrowding]
    } else {
        seq![]
    }
}

/// Every fault of a configuration: the factors' faults, then the radii's.
pub open spec fn config_issues(
    crowding_radius: int,
    local_radius: int,
    repulsion: int,
    adhesion: int,
    cohesion: int,
) -> Seq<ConfigIssue> {
    factor_issues(repulsion, adhesion, cohesion) + distance_issues(crowding_radius, local_radius)
}

/// The text that describes a fault.
pub open spec fn message(issue: ConfigIssue) -> Seq<char> {
    match issue {
        ConfigIssue::BelowZero(name) => name + " factor is negative"@,
        ConfigIssue::AboveOne(name) => name + " factor is too large and should be below zero"@,
        ConfigIssue::LocalNotBeyondCrowding => {
            "local environment is smaller than (or equal to) crowding environment"@
        },
    }
}

impl CreationError {
    /// The text that describes this fault.
    pub fn to_string(&self) -> (r: String)
        ensures
            r@ == message(self@),
    {
        match self {
            CreationError::FactorShouldBeMoreThanZero(factor_name) => {
                factor_name.clone().concat(" factor is negative")
            },
            CreationError::FactorShouldBeLessThanOne(factor_name) => {
                factor_name.clone().concat(" factor is too large and should be below zero")
            },
            CreationError::LocalEnvironmentIsSmallerThanCrowdingEnvironment => {
                String::from_str("local environment is smaller than (or equal to) crowding environment")
            },
        }
    }
}

/// The fault of `value` as a factor named `name`, or `None` when it lies in
/// `[0, SCALE]`.
pub fn check_factor_between_zero_and_one(value: i64, name: String) -> (r: Option<CreationError>)
    ensures
        option_issues(r) == factor_issue(value as int, name@),
{
    if value < 0 {
        Some(CreationError::FactorShouldBeMoreThanZero(name))
    } else if value > SCALE {
        Some(CreationError::FactorShouldBeLessThanOne(name))
    } else {
        None
    }
}

fn push_issue(errors: &mut Vec<CreationError>, error: Option<CreationError>)
    ensures
        issues_of(final(errors)@) == issues_of(old(errors)@) + option_issues(error),
{
    match error {
        Some(e) => {
            errors.push(e);
            assert(issues_of(errors@) =~= issues_of(old(errors)@) + option_issues(error));
        },
        None => {
            assert(issues_of(errors@) =~= issues_of(old(errors)@) + option_issues(error));
        },
    }
}

/// The faults of the three factors, in the order repulsion, adhesion, cohesion.
pub fn validate_factors(repulsion_factor: i64, adhesion_factor: i64, cohesion_factor: i64) -> (r: Vec<
    CreationError,
>)
    ensures
        issues_of(r@) == factor_issues(
            repulsion_factor as int,
            adhesion_factor as int,
            cohesion_factor as int,
        ),
{
    let repulsion = check_factor_between_zero_and_one(repulsion_factor, String::from_str("repulsion"));
    let adhesion = check_factor_between_zero_and_one(adhesion_factor, String::from_str("adhesion"));
    let cohesion = check_factor_between_zero_and_one(cohesion_factor, String::from_str("cohesion"));
    let mut errors: Vec<CreationError> = Vec::new();
    assert(issues_of(errors@) =~= seq![]);
    push_issue(&mut errors, repulsion);
    push_issue(&mut errors, adhesion);
    push_issue(&mut errors, cohesion);
    errors
}

/// The fault of a local radius that does not exceed the crowding radius.
pub fn validate_distances(max_dist_before_boid_is_crowded: &i64, max_dist_of_local_boid: &i64) -> (r:
    Option<CreationError>)
    ensures
        option_issues(r) == distance_issues(
            *max_dist_before_boid_is_crowded as int,
            *max_dist_of_local_boid as int,
        ),
{
    if *max_dist_before_boid_is_crowded >= *max_dist_of_local_boid {
        Some(CreationError::LocalEnvironmentIsSmallerThanCrowdingEnvironment)
    } else {
        None
    }
}

/// Every fault found in a flock's configuration.
#[derive(Debug)]
pub struct InvalidFlockConfig {
    pub errors: Vec<CreationError>,
}

} // verus!
