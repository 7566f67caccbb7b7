//! One logged loss.
use vstd::prelude::*;
use crate::cause::Cause;
use crate::instant::Instant;

verus! {

/// Record of lost game
#[derive(Debug, Clone, Copy, PartialEq, Eq, Structural)]
pub struct Game {
    /// Date of the game
    pub date: Instant,
    /// Cause for the loss
    pub cause: Cause,
}

impl Game {
    pub fn new(date: Instant, cause: Cause) -> (game: Game)
        ensures
            game.date == date,
            game.cause == cause,
    {
        Game { date, cause }
    }

    /// Whether this game counts towards `cause` in the thirty days that end
    /// at `now`.
    pub open spec fn counts_for(self, now: Instant, cause: Cause) -> bool {
        self.cause == cause && self.date.in_window(now)
    }
}

} // verus!
