//! Sentiment samples in fixed point.
//!
//! A score is an integer count of ten-thousandths, so every computation on
//! samples is exact.

use vstd::prelude::*;
use crate::binary64::{
    compound_from_bits, is_compound, is_ratio, is_share, share_from_bits, signed_units,
};

verus! {

/// How many units make up the score `1.0`.
pub const SCORE_SCALE: i32 = 10000;

/// `SCORE_SCALE` as a mathematical integer.
pub open spec fn score_scale() -> int {
    10000
}

/// The polarity of one text sample: three non-negative shares and a compound
/// score between `-SCORE_SCALE` and `SCORE_SCALE`, all in ten-thousandths.
#[derive(Clone, Copy, Debug, PartialEq, Eq, Structural)]
pub struct SentimentResult {
    negative: u32,
    neutral: u32,
    positive: u32,
    compound: i32,
}

impl SentimentResult {
    /// Holds of every sample: the compound score is within the scale.
    #[verifier::type_invariant]
    pub closed spec fn compound_in_range(self) -> bool {
        -score_scale() <= self.compound <= score_scale()
    }

    /// The negative share, in units.
    pub closed spec fn negative_units(self) -> int {
        self.negative as int
    }

    /// The neutral share, in units.
    pub closed spec fn neutral_units(self) -> int {
        self.neutral as int
    }

    /// The positive share, in units.
    pub closed spec fn positive_units(self) -> int {
        self.positive as int
    }

    /// The compound score, in units.
    pub closed spec fn compound_units(self) -> int {
        self.compound as int
    }

    /// The three shares together, in units.
    pub open spec fn shares_total(self) -> int {
        self.negative_units() + self.neutral_units() + self.positive_units()
    }

    /// Builds a sample. The compound score has to lie between `-SCORE_SCALE`
    /// and `SCORE_SCALE`; any other value yields `None`.
    pub fn from_scores(negative: u32, neutral: u32, positive: u32, compound: i32) -> (r: Option<
        SentimentResult,
    >)
        ensures
            r.is_some() <==> -score_scale() <= compound <= score_scale(),
            r.is_some() ==> r.unwrap().negative_units() == negative
                && r.unwrap().neutral_units() == neutral
                && r.unwrap().positive_units() == positive
                && r.unwrap().compound_units() == compound,
    {
        if compound < -SCORE_SCALE || compound > SCORE_SCALE {
            None
        } else {
            Some(SentimentResult { negative, neutral, positive, compound })
        }
    }

    /// Builds a sample from four scores given as IEEE 754 binary64 bit
    /// patterns, each rounded to the nearest ten-thousandth. There is none
    /// where a pattern stands for no number, where a share after rounding is
    /// below `0` or beyond `u32::MAX` ten-thousandths, or where the compound
    /// score after rounding is outside `-1` to `1`. So a share that rounds to
    /// `0` from below is taken as `0`, and a compound score that rounds to
    /// `1` from above as `1`.
    pub fn from_bits(negative: u64, neutral: u64, positive: u64, compound: u64) -> (r: Option<
        SentimentResult,
    >)
        ensures
            r.is_some() <==> is_share(negative) && is_share(neutral) && is_share(positive)
                && is_compound(compound),
            r.is_some() ==> r.unwrap().negative_units() == signed_units(negative)
                && r.unwrap().neutral_units() == signed_units(neutral)
                && r.unwrap().positive_units() == signed_units(positive)
                && r.unwrap().compound_units() == signed_units(compound),
    {
        let negative = match share_from_bits(negative) {
            Some(units) => units,
            None => return None,
        };
        let neutral = match share_from_bits(neutral) {
            Some(units) => units,
            None => return None,
        };
        let positive = match share_from_bits(positive) {
            Some(units) => units,
            None => return None,
        };
        let compound = match compound_from_bits(compound) {
            Some(units) => units,
            None => return None,
        };
        Some(SentimentResult { negative, neutral, positive, compound })
    }

    /// The negative share, in ten-thousandths.
    pub fn negative(&self) -> (r: u32)
        ensures
            r == self.negative_units(),
    {
        self.negative
    }

    /// The neutral share, in ten-thousandths.
    pub fn neutral(&self) -> (r: u32)
        ensures
            r == self.neutral_units(),
    {
        self.neutral
    }

    /// The positive share, in ten-thousandths.
    pub fn positive(&self) -> (r: u32)
        ensures
            r == self.positive_units(),
    {
        self.positive
    }

    /// The compound score, in ten-thousandths.
    pub fn compound(&self) -> (r: i32)
        ensures
            r == self.compound_units(),
            -score_scale() <= r <= score_scale(),
    {
        proof {
            use_type_invariant(self);
        }
        self.compound
    }
}

/// The longest text, in characters, that `analyze_message` scores.
///
/// The analyzer counts the exclamation and question marks of a text in 31
/// bits, after it has put a description of at most 53 bytes and a space in
/// the place of each emoji. A text within this length stays below that count
/// however many emoji it holds.
pub const MAX_MESSAGE_LENGTH: usize = 33_554_432;

/// Whether `c` is one of the letters `a` to `z` or `A` to `Z`.
pub open spec fn is_ascii_letter(c: char) -> bool {
    ('a' <= c && c <= 'z') || ('A' <= c && c <= 'Z')
}

/// Whether `text` holds two such letters side by side.
pub open spec fn has_word(text: Seq<char>) -> bool {
    exists|i: int|
        0 <= i && i + 1 < text.len() && is_ascii_letter(#[trigger] text[i]) && is_ascii_letter(
            text[i + 1],
        )
}

/// Whether shares that add up to `total` units make up one whole, give or
/// take the rounding of each.
pub open spec fn is_whole(total: int) -> bool {
    score_scale() - 2 <= total <= score_scale() + 2
}

/// Calls `SentimentIntensityAnalyzer::polarity_scores` of `vader_sentiment`
/// on `msg`, with the analyzer that `SentimentIntensityAnalyzer::new` gives,
/// and hands back the scores that it files under "neg", "neu", "pos" and
/// "compound", in this order, each as its bit pattern.
///
/// Which scores come back is not claimed: the analyzer walks hash maps,
/// whose order differs from one process to the next. Claimed is what holds
/// of every outcome, for a text within `MAX_MESSAGE_LENGTH`:
/// - The analyzer splits the text at white space and keeps as tokens the
///   pieces of two bytes or more. Without a token all four scores are zero.
/// - With a token it sums finitely many finite valences, and its emphasis
///   for punctuation is not negative, as its counts of marks do not wrap. It
///   gives each of the first three scores as the absolute value of one part
///   of a whole divided by that whole; the parts are not negative, and the
///   whole, their sum, is at least one. So each is a number from `0` to `1`,
///   and the three add up to `1` but for the rounding of the divisions.
/// - It gives the compound score as `s / sqrt(s * s + 15)` and replaces what
///   lies below `-1` or above `1` by that bound.
/// - No letter from `a` to `z` or `A` to `Z` is an emoji to it, so two of
///   them side by side stay so and lie in one token.
#[verifier::external_body]
fn polarity_score_bits(msg: &str) -> (r: (u64, u64, u64, u64))
    requires
        msg@.len() <= MAX_MESSAGE_LENGTH,
    ensures
        is_ratio(r.0),
        is_ratio(r.1),
        is_ratio(r.2),
        is_compound(r.3),
        signed_units(r.0) + signed_units(r.1) + signed_units(r.2) == 0 || is_whole(
            signed_units(r.0) + signed_units(r.1) + signed_units(r.2),
        ),
        has_word(msg@) ==> is_whole(signed_units(r.0) + signed_units(r.1) + signed_units(r.2)),
{
    let analyzer = vader_sentiment::SentimentIntensityAnalyzer::new();
    let scores = analyzer.polarity_scores(msg);
    (
        scores["neg"].to_bits(),
        scores["neu"].to_bits(),
        scores["pos"].to_bits(),
        scores["compound"].to_bits(),
    )
}

/// Scores the text of one message: the analyzer's four scores, each rounded
/// to the nearest ten-thousandth.
///
/// A text of more than `MAX_MESSAGE_LENGTH` characters has no sample, every
/// other text has one. Each share of the sample is between nothing and the
/// whole, and its compound score is within the scale. The shares make up one
/// whole, or all three are zero; they are not zero where the text holds two
/// letters side by side. Which scores the analyzer gives is for it to say.
pub fn analyze_message(msg: &str) -> (r: Option<SentimentResult>)
    ensures
        r.is_some() <==> msg@.len() <= MAX_MESSAGE_LENGTH,
        r matches Some(sample) ==> {
            &&& 0 <= sample.negative_units() <= score_scale()
            &&& 0 <= sample.neutral_units() <= score_scale()
            &&& 0 <= sample.positive_units() <= score_scale()
            &&& -score_scale() <= sample.compound_units() <= score_scale()
            &&& sample.shares_total() == 0 || is_whole(sample.shares_total())
            &&& has_word(msg@) ==> is_whole(sample.shares_total())
        },
{
    if msg.unicode_len() > MAX_MESSAGE_LENGTH {
        return None;
    }
    let (negative, neutral, positive, compound) = polarity_score_bits(msg);
    SentimentResult::from_bits(negative, neutral, positive, compound)
}

/// The sum of the compound scores of `values`, in units.
pub open spec fn compound_total(values: Seq<SentimentResult>) -> int
    decreases values.len(),
{
    if values.len() == 0 {
        0
    } else {
        compound_total(values.drop_last()) + values.last().compound_units()
    }
}

} // verus!
