//! The weight of a position at the moment it is committed.

use vstd::prelude::*;
use vstd::arithmetic::div_mod::lemma_div_is_ordered;
use vstd::arithmetic::mul::{lemma_mul_inequality, lemma_mul_nonnegative};
use crate::errors::Errors;
use crate::state::WeightModel;

verus! {

/// Weights are fixed-point numbers: a weight of 1.0 is stored as 10 000.
pub const WEIGHT_PRECISION: u64 = 10_000;

/// The weight of a position of the given age, in seconds, under the
/// time-based model: `age * numerator / denominator` in fixed point, rounded
/// down, and never less than 1.0.
pub open spec fn time_based_weight(age: int, numerator: int, denominator: int) -> int
    recommends
        age >= 0,
        numerator >= 0,
        denominator > 0,
{
    let scaled = age * numerator * WEIGHT_PRECISION / denominator;
    if scaled < WEIGHT_PRECISION {
        WEIGHT_PRECISION as int
    } else {
        scaled
    }
}

/// Why a weight cannot be computed, if it cannot.
pub open spec fn weight_error(
    model: WeightModel,
    created_at: i64,
    current_time: i64,
    weight_rate_numerator: u64,
    weight_rate_denominator: u64,
) -> Option<Errors> {
    let age = current_time - created_at;
    match model {
        WeightModel::Constant => None,
        WeightModel::TimeBased => {
            if age < 0 || age > i64::MAX || weight_rate_denominator == 0 {
                Some(Errors::InvalidCalculation)
            } else if age * weight_rate_numerator > u64::MAX {
                Some(Errors::InvalidMul)
            } else if age * weight_rate_numerator * WEIGHT_PRECISION > u64::MAX {
                Some(Errors::InvalidMul)
            } else {
                None
            }
        },
    }
}

/// The weight of a position created at `created_at` and committed at
/// `current_time`, where it can be computed.
pub open spec fn weight_of(
    model: WeightModel,
    created_at: i64,
    current_time: i64,
    weight_rate_numerator: u64,
    weight_rate_denominator: u64,
) -> int {
    match model {
        WeightModel::Constant => WEIGHT_PRECISION as int,
        WeightModel::TimeBased => time_based_weight(
            current_time - created_at,
            weight_rate_numerator as int,
            weight_rate_denominator as int,
        ),
    }
}

/// Computes the weight of a position. Under the constant model it is 1.0.
/// Under the time-based model it grows with the position's age at the
/// configured rate and is at least 1.0; a negative age, a zero denominator
/// or a product that does not fit 64 bits is an error.
pub fn calculate_weight(
    model: WeightModel,
    created_at: i64,
    current_time: i64,
    weight_rate_numerator: u64,
    weight_rate_denominator: u64,
) -> (result: Result<u64, Errors>)
    ensures
        match weight_error(
            model,
            created_at,
            current_time,
            weight_rate_numerator,
            weight_rate_denominator,
        ) {
            Some(e) => result == Err::<u64, Errors>(e),
            None => {
                &&& result is Ok
                &&& result->Ok_0 == weight_of(
                    model,
                    created_at,
                    current_time,
                    weight_rate_numerator,
                    weight_rate_denominator,
                )
            },
        },
{
    match model {
        WeightModel::Constant => Ok(WEIGHT_PRECISION),
        WeightModel::TimeBased => {
            let age: i64 = match current_time.checked_sub(created_at) {
                Some(a) => a,
                None => {
                    return Err(Errors::InvalidCalculation);
                },
            };
            if age < 0 {
                return Err(Errors::InvalidCalculation);
            }
            if weight_rate_denominator == 0 {
                return Err(Errors::InvalidCalculation);
            }
            let age_u64: u64 = age as u64;
            let by_rate: u64 = match age_u64.checked_mul(weight_rate_numerator) {
                Some(p) => p,
                None => {
                    return Err(Errors::InvalidMul);
                },
            };
            let scaled: u64 = match by_rate.checked_mul(WEIGHT_PRECISION) {
                Some(p) => p,
                None => {
                    return Err(Errors::InvalidMul);
                },
            };
            let calculated_weight: u64 = match scaled.checked_div(weight_rate_denominator) {
                Some(q) => q,
                None => {
                    return Err(Errors::InvalidDiv);
                },
            };
            if calculated_weight < WEIGHT_PRECISION {
                Ok(WEIGHT_PRECISION)
            } else {
                Ok(calculated_weight)
            }
        },
    }
}

/// A time-based weight is never below 1.0, and an older position never
/// weighs less than a younger one.
pub proof fn lemma_time_based_weight_monotonic(
    younger: int,
    older: int,
    numerator: int,
    denominator: int,
)
    requires
        0 <= younger <= older,
        0 <= numerator,
        0 < denominator,
    ensures
        WEIGHT_PRECISION <= time_based_weight(younger, numerator, denominator),
        time_based_weight(younger, numerator, denominator) <= time_based_weight(
            older,
            numerator,
            denominator,
        ),
{
    lemma_mul_inequality(younger, older, numerator);
    lemma_mul_nonnegative(younger, numerator);
    lemma_mul_inequality(younger * numerator, older * numerator, WEIGHT_PRECISION as int);
    lemma_div_is_ordered(
        younger * numerator * WEIGHT_PRECISION,
        older * numerator * WEIGHT_PRECISION,
        denominator,
    );
}

/// Whatever the model, a weight that can be computed is at least 1.0, and
/// committing the same position later never gives it a smaller weight.
pub proof fn lemma_weight_grows_with_time(
    model: WeightModel,
    created_at: i64,
    earlier: i64,
    later: i64,
    weight_rate_numerator: u64,
    weight_rate_denominator: u64,
)
    requires
        earlier <= later,
        weight_error(model, created_at, earlier, weight_rate_numerator, weight_rate_denominator)
            is None,
        weight_error(model, created_at, later, weight_rate_numerator, weight_rate_denominator)
            is None,
    ensures
        WEIGHT_PRECISION <= weight_of(
            model,
            created_at,
            earlier,
            weight_rate_numerator,
            weight_rate_denominator,
        ) <= weight_of(model, created_at, later, weight_rate_numerator, weight_rate_denominator),
{
    if model == WeightModel::TimeBased {
        lemma_time_based_weight_monotonic(
            earlier - created_at,
            later - created_at,
            weight_rate_numerator as int,
            weight_rate_denominator as int,
        );
    }
}

} // verus!
