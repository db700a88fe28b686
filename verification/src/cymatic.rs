//! The crime coefficient: a risk figure derived from an average compound
//! score.
//!
//! The average is the rational `total / weight`. For a non-negative average
//! `c` the coefficient is `(1 - c) * 75`. For a negative one it is
//! `f^3 + (2 f)^2 * 5 + 75` with `f = 1 / (1 - |c|)`, which has no value at
//! `c = -1`. Coefficients are exact fractions.

use vstd::prelude::*;
use crate::sentiment::{compound_total, score_scale, SentimentResult, SCORE_SCALE};

verus! {

/// Why no coefficient could be computed.
#[derive(Clone, Copy, Debug, PartialEq, Eq, Structural)]
pub enum ScoreError {
    /// There is no sample to average.
    EmptyHistory,
    /// The average compound score is exactly `-1`.
    SaturatedSentiment,
}

/// The fraction `numerator / denominator`, with a positive denominator.
#[derive(Clone, Copy, Debug, PartialEq, Eq, Structural)]
pub struct CrimeCoefficient {
    pub numerator: u128,
    pub denominator: u128,
}

/// What is derived from a history of samples.
#[derive(Clone, Copy, Debug, PartialEq, Eq, Structural)]
pub struct ComputedData {
    pub crime_coefficient: CrimeCoefficient,
}

/// The largest weight of an average that `convert_compound_to_cc` takes.
pub const MAX_COMPOUND_WEIGHT: u64 = 1_000_000_000_000;

/// The most samples that `from_sentiment_values` takes.
pub const MAX_SAMPLES: usize = 100_000_000;

/// Numerator of the coefficient of the average `total / weight`.
pub open spec fn coefficient_numerator(total: int, weight: int) -> int {
    if total >= 0 {
        75 * (weight - total)
    } else {
        let rest = weight + total;
        weight * weight * weight + 20 * (weight * weight * rest) + 75 * (rest * rest * rest)
    }
}

/// Denominator of the coefficient of the average `total / weight`.
pub open spec fn coefficient_denominator(total: int, weight: int) -> int {
    if total >= 0 {
        weight
    } else {
        let rest = weight + total;
        rest * rest * rest
    }
}

/// The coefficient of the average `total / weight`, where there is one.
pub open spec fn coefficient_of(total: int, weight: int) -> Result<(int, int), ScoreError> {
    if total + weight == 0 {
        Err(ScoreError::SaturatedSentiment)
    } else {
        Ok((coefficient_numerator(total, weight), coefficient_denominator(total, weight)))
    }
}

/// The mean compound score of a history of samples as the fraction
/// `total / weight`, where there is a sample.
pub open spec fn average_of(values: Seq<SentimentResult>) -> Result<(int, int), ScoreError> {
    if values.len() == 0 {
        Err(ScoreError::EmptyHistory)
    } else {
        Ok((compound_total(values), values.len() * score_scale()))
    }
}

/// The coefficient of a history of samples, where there is one.
pub open spec fn coefficient_of_history(values: Seq<SentimentResult>) -> Result<
    (int, int),
    ScoreError,
> {
    match average_of(values) {
        Ok((total, weight)) => coefficient_of(total, weight),
        Err(e) => Err(e),
    }
}

/// Whether `r` is the outcome `expected`, fraction for fraction.
pub open spec fn matches_outcome(
    r: Result<ComputedData, ScoreError>,
    expected: Result<(int, int), ScoreError>,
) -> bool {
    match (r, expected) {
        (Ok(data), Ok((numerator, denominator))) => data.crime_coefficient.numerator == numerator
            && data.crime_coefficient.denominator == denominator,
        (Err(e), Err(f)) => e == f,
        _ => false,
    }
}

proof fn lemma_cube_bound(a: int, b: int, c: int, m: int)
    requires
        0 <= a <= m,
        0 <= b <= m,
        0 <= c <= m,
    ensures
        0 <= a * b <= m * m,
        0 <= a * b * c <= m * m * m,
{
    assert(0 <= a * b <= m * m) by (nonlinear_arith)
        requires
            0 <= a <= m,
            0 <= b <= m,
    ;
    let ab = a * b;
    let mm = m * m;
    assert(0 <= ab * c <= mm * m) by (nonlinear_arith)
        requires
            0 <= ab <= mm,
            0 <= c <= m,
    ;
}

/// One more sample adds its compound score to the sum.
pub proof fn lemma_compound_total_push(values: Seq<SentimentResult>, item: SentimentResult)
    ensures
        compound_total(values.push(item)) == compound_total(values) + item.compound_units(),
{
    assert(values.push(item).drop_last() =~= values);
}

impl ComputedData {
    /// The coefficient of the average compound score `total / weight`.
    ///
    /// Fails with `SaturatedSentiment` exactly where the average is `-1`.
    pub fn convert_compound_to_cc(total: i64, weight: u64) -> (r: Result<ComputedData, ScoreError>)
        requires
            0 < weight <= MAX_COMPOUND_WEIGHT,
            -(weight as int) <= total <= weight as int,
        ensures
            matches_outcome(r, coefficient_of(total as int, weight as int)),
    {
        let w: u128 = weight as u128;
        if total >= 0 {
            let t: u128 = total as u128;
            Ok(
                ComputedData {
                    crime_coefficient: CrimeCoefficient { numerator: 75 * (w - t), denominator: w },
                },
            )
        } else {
            let rest: u128 = (weight as i128 + total as i128) as u128;
            if rest == 0 {
                return Err(ScoreError::SaturatedSentiment);
            }
            proof {
                let m: int = 1_000_000_000_000;
                lemma_cube_bound(w as int, w as int, w as int, m);
                lemma_cube_bound(w as int, w as int, rest as int, m);
                lemma_cube_bound(rest as int, rest as int, rest as int, m);
                assert(m * m * m == 1_000_000_000_000_000_000_000_000_000_000_000_000int)
                    by (nonlinear_arith)
                    requires
                        m == 1_000_000_000_000int,
                ;
                assert(m * m == 1_000_000_000_000_000_000_000_000int) by (nonlinear_arith)
                    requires
                        m == 1_000_000_000_000int,
                ;
            }
            let w2: u128 = w * w;
            let w3: u128 = w2 * w;
            let w2r: u128 = w2 * rest;
            let r2: u128 = rest * rest;
            let r3: u128 = r2 * rest;
            Ok(
                ComputedData {
                    crime_coefficient: CrimeCoefficient {
                        numerator: w3 + 20 * w2r + 75 * r3,
                        denominator: r3,
                    },
                },
            )
        }
    }

    /// The coefficient of the arithmetic mean of the compound scores of
    /// `values`.
    ///
    /// Fails with `EmptyHistory` where there is no sample, and with
    /// `SaturatedSentiment` where the mean is exactly `-1`.
    pub fn from_sentiment_values(values: &Vec<SentimentResult>) -> (r: Result<
        ComputedData,
        ScoreError,
    >)
        requires
            values.len() <= MAX_SAMPLES,
        ensures
            matches_outcome(r, coefficient_of_history(values@)),
    {
        match average_compound(values) {
            Ok((total, weight)) => ComputedData::convert_compound_to_cc(total, weight),
            Err(e) => Err(e),
        }
    }
}

/// The arithmetic mean of the compound scores of `values`, as the fraction
/// of the two numbers returned: the sum of the scores, and the number of
/// samples times the scale.
///
/// Fails with `EmptyHistory` where there is no sample.
pub fn average_compound(values: &Vec<SentimentResult>) -> (r: Result<(i64, u64), ScoreError>)
    requires
        values.len() <= MAX_SAMPLES,
    ensures
        match r {
            Ok((total, weight)) => average_of(values@) == Ok::<(int, int), ScoreError>(
                (total as int, weight as int),
            ),
            Err(e) => average_of(values@) == Err::<(int, int), ScoreError>(e),
        },
        r matches Ok((total, weight)) ==> 0 < weight <= MAX_COMPOUND_WEIGHT && -(weight as int)
            <= total <= weight as int,
{
    let n: usize = values.len();
    if n == 0 {
        return Err(ScoreError::EmptyHistory);
    }
    let mut total: i64 = 0;
    let mut i: usize = 0;
    while i < n
        invariant
            i <= n,
            n == values.len(),
            n <= MAX_SAMPLES,
            total == compound_total(values@.take(i as int)),
            -(i * score_scale()) <= total <= i * score_scale(),
        decreases n - i,
    {
        let c: i32 = values[i].compound();
        proof {
            lemma_compound_total_push(values@.take(i as int), values@[i as int]);
            assert(values@.take(i as int).push(values@[i as int]) =~= values@.take(i + 1));
        }
        total = total + c as i64;
        i = i + 1;
    }
    proof {
        assert(values@.take(n as int) =~= values@);
    }
    let weight: u64 = n as u64 * SCORE_SCALE as u64;
    Ok((total, weight))
}

/// At the average `0` the coefficient is exactly `75`.
pub proof fn lemma_neutral_coefficient(weight: int)
    requires
        weight > 0,
    ensures
        coefficient_of(0, weight) == Ok::<(int, int), ScoreError>((75 * weight, weight)),
{
}

/// Below the average `0` the coefficient lies above `96`: towards `0` from
/// below it does not come down to the `75` that it has at `0`.
pub proof fn lemma_negative_coefficient_above_96(total: int, weight: int)
    requires
        weight > 0,
        -weight < total < 0,
    ensures
        coefficient_denominator(total, weight) > 0,
        coefficient_numerator(total, weight) > 96 * coefficient_denominator(total, weight),
{
    let rest = weight + total;
    let r3 = rest * rest * rest;
    let w3 = weight * weight * weight;
    let mid = weight * weight * rest;
    assert(r3 > 0 && w3 > r3 && mid > r3) by (nonlinear_arith)
        requires
            0 < rest < weight,
            r3 == rest * rest * rest,
            w3 == weight * weight * weight,
            mid == weight * weight * rest,
    ;
}

/// The coefficient falls strictly as the average rises: of two averages
/// above `-1`, the smaller one has the larger coefficient. This holds on both
/// sides of `0` and across it.
pub proof fn lemma_coefficient_strictly_decreasing(
    total_a: int,
    weight_a: int,
    total_b: int,
    weight_b: int,
)
    requires
        weight_a > 0,
        weight_b > 0,
        -weight_a < total_a <= weight_a,
        -weight_b < total_b <= weight_b,
        total_a * weight_b < total_b * weight_a,
    ensures
        coefficient_numerator(total_a, weight_a) * coefficient_denominator(total_b, weight_b)
            > coefficient_numerator(total_b, weight_b) * coefficient_denominator(total_a, weight_a),
{
    let ra = weight_a + total_a;
    let rb = weight_b + total_b;
    if total_a >= 0 {
        assert(total_b > 0) by (nonlinear_arith)
            requires
                total_a >= 0,
                weight_a > 0,
                weight_b > 0,
                total_a * weight_b < total_b * weight_a,
        ;
        assert(75 * (weight_a - total_a) * weight_b > 75 * (weight_b - total_b) * weight_a)
            by (nonlinear_arith)
            requires
                total_a * weight_b < total_b * weight_a,
        ;
    } else if total_b >= 0 {
        let ra3 = ra * ra * ra;
        let wa3 = weight_a * weight_a * weight_a;
        let mid = weight_a * weight_a * ra;
        assert(ra3 > 0 && wa3 > 0 && mid > 0) by (nonlinear_arith)
            requires
                ra > 0,
                weight_a > 0,
                ra3 == ra * ra * ra,
                wa3 == weight_a * weight_a * weight_a,
                mid == weight_a * weight_a * ra,
        ;
        assert((wa3 + 20 * mid + 75 * ra3) * weight_b > 75 * (weight_b - total_b) * ra3)
            by (nonlinear_arith)
            requires
                ra3 > 0,
                wa3 > 0,
                mid > 0,
                weight_b > 0,
                total_b >= 0,
        ;
    } else {
        // Both averages are negative: compare the factors `weight / rest`.
        let x = weight_a * rb;
        let y = weight_b * ra;
        assert(x > y && y > 0) by (nonlinear_arith)
            requires
                x == weight_a * rb,
                y == weight_b * ra,
                ra == weight_a + total_a,
                rb == weight_b + total_b,
                total_a * weight_b < total_b * weight_a,
                ra > 0,
                weight_b > 0,
        ;
        let p = ra * rb;
        assert(p > 0) by (nonlinear_arith)
            requires
                p == ra * rb,
                ra > 0,
                rb > 0,
        ;
        assert(x * x * x > y * y * y && x * x > y * y) by (nonlinear_arith)
            requires
                x > y,
                y > 0,
        ;
        let x2 = x * x;
        let y2 = y * y;
        assert(x2 * p > y2 * p) by (nonlinear_arith)
            requires
                x2 > y2,
                p > 0,
        ;
        let wa3 = weight_a * weight_a * weight_a;
        let wb3 = weight_b * weight_b * weight_b;
        let ra3 = ra * ra * ra;
        let rb3 = rb * rb * rb;
        let ma = weight_a * weight_a * ra;
        let mb = weight_b * weight_b * rb;
        assert(wa3 * rb3 == x * x * x) by (nonlinear_arith)
            requires
                wa3 == weight_a * weight_a * weight_a,
                rb3 == rb * rb * rb,
                x == weight_a * rb,
        ;
        assert(wb3 * ra3 == y * y * y) by (nonlinear_arith)
            requires
                wb3 == weight_b * weight_b * weight_b,
                ra3 == ra * ra * ra,
                y == weight_b * ra,
        ;
        assert(ma * rb3 == x2 * p) by (nonlinear_arith)
            requires
                ma == weight_a * weight_a * ra,
                rb3 == rb * rb * rb,
                x2 == x * x,
                x == weight_a * rb,
                p == ra * rb,
        ;
        assert(mb * ra3 == y2 * p) by (nonlinear_arith)
            requires
                mb == weight_b * weight_b * rb,
                ra3 == ra * ra * ra,
                y2 == y * y,
                y == weight_b * ra,
                p == ra * rb,
        ;
        assert((wa3 + 20 * ma + 75 * ra3) * rb3 == wa3 * rb3 + 20 * (ma * rb3) + 75 * (ra3 * rb3))
            by (nonlinear_arith);
        assert((wb3 + 20 * mb + 75 * rb3) * ra3 == wb3 * ra3 + 20 * (mb * ra3) + 75 * (ra3 * rb3))
            by (nonlinear_arith);
    }
}

} // verus!
