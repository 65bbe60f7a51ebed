//! Engine evaluations and their sign convention.

use vstd::prelude::*;

verus! {

/// An evaluation, in centipawns or as a forced mate in a number of moves.
#[derive(Debug, Clone, Copy, PartialEq, Eq, Structural)]
pub enum Score {
    Cp(i64),
    Mate(i64),
}

/// Negation within `i64`; the one value without a negation saturates.
pub open spec fn neg_i64(x: i64) -> i64 {
    if x == i64::MIN {
        i64::MAX
    } else {
        (-x) as i64
    }
}

/// The same evaluation seen from the other side.
pub open spec fn flip(s: Score) -> Score {
    match s {
        Score::Cp(x) => Score::Cp(neg_i64(x)),
        Score::Mate(x) => Score::Mate(neg_i64(x)),
    }
}

/// A score reported for the side to move, restated so that positive
/// values favour White.
pub open spec fn canonical(s: Score, black_to_move: bool) -> Score {
    if black_to_move {
        flip(s)
    } else {
        s
    }
}

fn negate(x: i64) -> (r: i64)
    ensures
        r == neg_i64(x),
{
    if x == i64::MIN {
        i64::MAX
    } else {
        -x
    }
}

impl Score {
    /// The score from White's point of view, given whose turn it was in
    /// the position the engine analysed.
    pub fn canonical(self, black_to_move: bool) -> (r: Score)
        ensures
            r == canonical(self, black_to_move),
    {
        if black_to_move {
            match self {
                Score::Cp(x) => Score::Cp(negate(x)),
                Score::Mate(x) => Score::Mate(negate(x)),
            }
        } else {
            self
        }
    }
}

} // verus!
