//! Scoring of one candidate name against the query: an exact match takes a
//! fixed top score, anything else the fuzzy matcher's score, and candidates
//! under a fixed threshold are later discarded as noise.

use vstd::prelude::*;
use crate::text::str_eq;

verus! {

/// Candidates scoring below this threshold are discarded.
pub const MINIMUM_SCORE: i64 = 20;

/// The score an exact match takes, so that it outranks fuzzy matches.
pub const EXACT_MATCH_SCORE: i64 = 1000;

/// What the skim fuzzy matcher, in its default configuration, returns for a
/// candidate and a pattern; `None` means no plausible alignment.
pub uninterp spec fn fuzzy_score_of(candidate: Seq<char>, pattern: Seq<char>) -> Option<i64>;

/// Relies on `fuzzy_matcher::skim::SkimMatcherV2::fuzzy_match` with the
/// matcher that `Default` builds: the score is a function of the two strings
/// alone.
#[verifier::external_body]
fn skim_fuzzy_match(candidate: &str, pattern: &str) -> (r: Option<i64>)
    ensures
        r == fuzzy_score_of(candidate@, pattern@),
{
    fuzzy_matcher::FuzzyMatcher::fuzzy_match(
        &fuzzy_matcher::skim::SkimMatcherV2::default(),
        candidate,
        pattern,
    )
}

/// The score of a candidate name: the fixed top score on an exact match,
/// otherwise the fuzzy score, with no alignment counting as zero.
pub open spec fn score_of(candidate: Seq<char>, query: Seq<char>) -> int {
    if candidate == query {
        EXACT_MATCH_SCORE as int
    } else {
        match fuzzy_score_of(candidate, query) {
            Some(s) => s as int,
            None => 0,
        }
    }
}

/// Gives a filename a fuzzy matcher score; an exact match takes the fixed
/// top score so that it is ranked ahead of every fuzzy match.
pub fn score_filename(filename: &str, query: &str) -> (r: i64)
    ensures
        r == score_of(filename@, query@),
{
    if str_eq(filename, query) {
        return EXACT_MATCH_SCORE;
    }
    match skim_fuzzy_match(filename, query) {
        Some(s) => s,
        None => 0,
    }
}

} // verus!
