//! Advisory labels for the presentation layer: a hint after each guess and
//! praise after a win. They carry no game state.
use crate::scoring::Feedback;
use vstd::prelude::*;

verus! {

/// Encouragement after a guess, by how close the feedback is.
#[derive(Debug, Clone, Copy, PartialEq, Eq, Structural)]
pub enum Hint {
    /// Nothing matched at all.
    NoMatch,
    /// No symbol in place, but some of the right colors.
    RightColors,
    OneExact,
    TwoExact,
    ThreeExact,
    /// Any other feedback.
    KeepAnalyzing,
}

/// Praise for a win, by how few guesses it took.
#[derive(Debug, Clone, Copy, PartialEq, Eq, Structural)]
pub enum Praise {
    /// Won with the first guess.
    HoleInOne,
    /// Won with the second or third guess.
    Master,
    /// Won with the fourth to sixth guess.
    Excellent,
    WellDone,
}

/// The hint tier that a feedback earns.
pub fn hint_for(feedback: Feedback) -> (r: Hint)
    ensures
        feedback.exact_matches == 0 && feedback.color_matches == 0 ==> r == Hint::NoMatch,
        feedback.exact_matches == 0 && feedback.color_matches > 0 ==> r == Hint::RightColors,
        feedback.exact_matches == 1 ==> r == Hint::OneExact,
        feedback.exact_matches == 2 ==> r == Hint::TwoExact,
        feedback.exact_matches == 3 ==> r == Hint::ThreeExact,
        feedback.exact_matches > 3 ==> r == Hint::KeepAnalyzing,
{
    if feedback.exact_matches == 0 {
        if feedback.color_matches == 0 {
            Hint::NoMatch
        } else {
            Hint::RightColors
        }
    } else if feedback.exact_matches == 1 {
        Hint::OneExact
    } else if feedback.exact_matches == 2 {
        Hint::TwoExact
    } else if feedback.exact_matches == 3 {
        Hint::ThreeExact
    } else {
        Hint::KeepAnalyzing
    }
}

/// The praise for a win after `attempts` guesses.
pub fn praise_for(attempts: usize) -> (r: Praise)
    ensures
        attempts == 1 ==> r == Praise::HoleInOne,
        2 <= attempts <= 3 ==> r == Praise::Master,
        4 <= attempts <= 6 ==> r == Praise::Excellent,
        (attempts == 0 || attempts > 6) ==> r == Praise::WellDone,
{
    if attempts == 1 {
        Praise::HoleInOne
    } else if 2 <= attempts && attempts <= 3 {
        Praise::Master
    } else if 4 <= attempts && attempts <= 6 {
        Praise::Excellent
    } else {
        Praise::WellDone
    }
}

} // verus!
