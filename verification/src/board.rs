//! Plain data handed to the board views: the histogram, the stats panel
//! and a single rendered guess.

use vstd::prelude::*;

use crate::hints::Guess;

verus! {

/// What the histogram view renders: the seven win buckets and the total
/// number of games played.
#[derive(Clone, Debug, PartialEq)]
pub struct HistogramProps {
    pub histogram: Vec<usize>,
    pub total: usize,
}

/// Whether the stats panel is shown.
#[derive(Clone, Copy, Debug, PartialEq, Eq, Structural)]
pub struct StatsProps {
    pub visible: bool,
}

/// The guess a single board row renders.
#[derive(Clone, Debug, PartialEq)]
pub struct GuessViewProps {
    pub guess: Guess,
}

} // verus!
