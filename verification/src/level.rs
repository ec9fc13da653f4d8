//! Diagnostic severity levels, totally ordered with `Error` highest.

use vstd::prelude::*;

verus! {

/// Severity of one diagnostic. The order, from highest to lowest, is
/// `Error > Warn > Note > Help`.
#[derive(Clone, Copy, Debug, PartialEq, Eq, Structural)]
pub enum Level {
    Error,
    Warn,
    Note,
    Help,
}

/// Numeric position of a level in the severity order; larger is more severe.
pub open spec fn level_rank(l: Level) -> int {
    match l {
        Level::Error => 3,
        Level::Warn => 2,
        Level::Note => 1,
        Level::Help => 0,
    }
}

impl Level {
    /// True when `self` is at least as severe as `other`.
    pub fn at_least(self, other: Level) -> (r: bool)
        ensures
            r == (level_rank(self) >= level_rank(other)),
    {
        let a: u8 = match self {
            Level::Error => 3,
            Level::Warn => 2,
            Level::Note => 1,
            Level::Help => 0,
        };
        let b: u8 = match other {
            Level::Error => 3,
            Level::Warn => 2,
            Level::Note => 1,
            Level::Help => 0,
        };
        a >= b
    }

    /// The less severe of `self` and `other`.
    pub fn min_with(self, other: Level) -> (r: Level)
        ensures
            r == (if level_rank(self) > level_rank(other) {
                other
            } else {
                self
            }),
    {
        if self.at_least(other) && !other.at_least(self) {
            other
        } else {
            self
        }
    }
}

} // verus!
