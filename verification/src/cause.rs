//! The closed set of causes for a lost game and their textual spelling.
use vstd::prelude::*;

verus! {

/// Cause for the lost game
#[derive(Debug, Clone, Copy, PartialEq, Eq, Structural, Hash)]
pub enum Cause {
    /// Game was lost in the opening
    Opening,
    /// Game was lost in the middlegame
    Middlegame,
    /// Game was lost in the endgame
    Endgame,
    /// Game was lost on time
    Time,
    /// Game was gradually lost due to missing strategy
    Strategy,
}

/// Number of causes.
pub const CAUSES: usize = 5;

impl Cause {
    /// The exact, case-sensitive text under which a cause is stored.
    pub open spec fn spelling(self) -> Seq<char> {
        match self {
            Cause::Opening => "Opening"@,
            Cause::Middlegame => "Middlegame"@,
            Cause::Endgame => "Endgame"@,
            Cause::Time => "Time"@,
            Cause::Strategy => "Strategy"@,
        }
    }

    /// The cause that a text spells, if it spells one.
    pub open spec fn named(text: Seq<char>) -> Option<Cause> {
        if text == "Opening"@ {
            Some(Cause::Opening)
        } else if text == "Middlegame"@ {
            Some(Cause::Middlegame)
        } else if text == "Endgame"@ {
            Some(Cause::Endgame)
        } else if text == "Time"@ {
            Some(Cause::Time)
        } else if text == "Strategy"@ {
            Some(Cause::Strategy)
        } else {
            None
        }
    }

    /// Place of a cause in declaration order, starting at zero.
    pub open spec fn position(self) -> nat {
        match self {
            Cause::Opening => 0,
            Cause::Middlegame => 1,
            Cause::Endgame => 2,
            Cause::Time => 3,
            Cause::Strategy => 4,
        }
    }

    /// The cause at a place in declaration order.
    pub open spec fn at(place: nat) -> Option<Cause> {
        if place == 0 {
            Some(Cause::Opening)
        } else if place == 1 {
            Some(Cause::Middlegame)
        } else if place == 2 {
            Some(Cause::Endgame)
        } else if place == 3 {
            Some(Cause::Time)
        } else if place == 4 {
            Some(Cause::Strategy)
        } else {
            None
        }
    }

    /// The stored spelling of this cause.
    pub fn name(&self) -> (text: String)
        ensures
            text@ == self.spelling(),
    {
        match self {
            Cause::Opening => String::from_str("Opening"),
            Cause::Middlegame => String::from_str("Middlegame"),
            Cause::Endgame => String::from_str("Endgame"),
            Cause::Time => String::from_str("Time"),
            Cause::Strategy => String::from_str("Strategy"),
        }
    }

    /// Reads a cause from its stored spelling; any other text gives `None`.
    pub fn from_name(text: &String) -> (cause: Option<Cause>)
        ensures
            cause == Cause::named(text@),
    {
        if *text == String::from_str("Opening") {
            Some(Cause::Opening)
        } else if *text == String::from_str("Middlegame") {
            Some(Cause::Middlegame)
        } else if *text == String::from_str("Endgame") {
            Some(Cause::Endgame)
        } else if *text == String::from_str("Time") {
            Some(Cause::Time)
        } else if *text == String::from_str("Strategy") {
            Some(Cause::Strategy)
        } else {
            None
        }
    }

    /// Place of this cause in declaration order.
    pub fn index(&self) -> (place: usize)
        ensures
            place == self.position(),
            place < CAUSES,
    {
        match self {
            Cause::Opening => 0,
            Cause::Middlegame => 1,
            Cause::Endgame => 2,
            Cause::Time => 3,
            Cause::Strategy => 4,
        }
    }

    /// The cause at a place in declaration order, `None` past the last one.
    pub fn from_index(place: usize) -> (cause: Option<Cause>)
        ensures
            cause == Cause::at(place as nat),
            cause is Some <==> place < CAUSES,
    {
        if place == 0 {
            Some(Cause::Opening)
        } else if place == 1 {
            Some(Cause::Middlegame)
        } else if place == 2 {
            Some(Cause::Endgame)
        } else if place == 3 {
            Some(Cause::Time)
        } else if place == 4 {
            Some(Cause::Strategy)
        } else {
            None
        }
    }
}

/// Reading back the spelling of a cause gives that cause: the five spellings
/// are pairwise different.
pub proof fn lemma_spelling_round_trip(cause: Cause)
    ensures
        Cause::named(cause.spelling()) == Some(cause),
{
    reveal_strlit("Opening");
    reveal_strlit("Middlegame");
    reveal_strlit("Endgame");
    reveal_strlit("Time");
    reveal_strlit("Strategy");
    assert("Opening"@.len() == 7 && "Opening"@[0] == 'O');
    assert("Middlegame"@.len() == 10);
    assert("Endgame"@.len() == 7 && "Endgame"@[0] == 'E');
    assert("Time"@.len() == 4);
    assert("Strategy"@.len() == 8);
}

/// A text spells a cause only if it is exactly that cause's spelling.
pub proof fn lemma_named_is_spelling(text: Seq<char>, cause: Cause)
    ensures
        Cause::named(text) == Some(cause) <==> text == cause.spelling(),
{
    lemma_spelling_round_trip(cause);
}

/// Places and causes correspond one to one.
pub proof fn lemma_position_round_trip(cause: Cause)
    ensures
        cause.position() < CAUSES,
        Cause::at(cause.position()) == Some(cause),
{
}

} // verus!
