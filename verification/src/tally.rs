//! Counting the recent games per cause and ranking the causes.
use vstd::prelude::*;
use crate::cause::{Cause, CAUSES};
use crate::game::Game;
use crate::instant::Instant;

verus! {

/// How often each cause occurred.
#[derive(Debug, Clone, Copy, PartialEq, Eq, Structural)]
pub struct Tally {
    pub opening: usize,
    pub middlegame: usize,
    pub endgame: usize,
    pub time: usize,
    pub strategy: usize,
}

/// One line of a ranking: a cause and the number of recent games lost to it.
#[derive(Debug, Clone, Copy, PartialEq, Eq, Structural)]
pub struct Entry {
    pub cause: Cause,
    pub count: usize,
}

/// Number of games among `games` that were lost to `cause` within the thirty
/// days that end at `now`.
pub open spec fn recent_count(games: Seq<Game>, now: Instant, cause: Cause) -> nat
    decreases games.len(),
{
    if games.len() == 0 {
        0
    } else {
        let earlier = recent_count(games.drop_last(), now, cause);
        if games.last().counts_for(now, cause) {
            earlier + 1
        } else {
            earlier
        }
    }
}

/// Order of a ranking: the higher count comes first, and of two causes with
/// the same count the one declared first.
pub open spec fn precedes(a: Entry, b: Entry) -> bool {
    a.count > b.count || (a.count == b.count && a.cause.position() < b.cause.position())
}

/// `list` ranks `tally`: it holds exactly the causes that occurred, each with
/// its count, in the order of `precedes`.
pub open spec fn is_ranking(list: Seq<Entry>, tally: Tally) -> bool {
    &&& forall|i: int|
        0 <= i < list.len() ==> (#[trigger] list[i]).count > 0 && list[i].count == tally.of(
            list[i].cause,
        )
    &&& forall|i: int, j: int| 0 <= i < j < list.len() ==> precedes(list[i], list[j])
    &&& forall|cause: Cause|
        tally.of(cause) > 0 ==> exists|i: int|
            0 <= i < list.len() && (#[trigger] list[i]).cause == cause
}

/// A further game adds one to the count of its cause if it lies in the
/// window, and changes no other count; a game at or before the cutoff
/// changes none.
pub proof fn lemma_count_step(games: Seq<Game>, game: Game, now: Instant, cause: Cause)
    ensures
        recent_count(games.push(game), now, cause) == recent_count(games, now, cause) + (if game.cause
            == cause && game.date.in_window(now) {
            1nat
        } else {
            0nat
        }),
{
    assert(games.push(game).drop_last() =~= games);
}

/// No cause is counted more often than there are games.
pub proof fn lemma_count_bounded(games: Seq<Game>, now: Instant, cause: Cause)
    ensures
        recent_count(games, now, cause) <= games.len(),
    decreases games.len(),
{
    if games.len() > 0 {
        lemma_count_bounded(games.drop_last(), now, cause);
    }
}

impl Tally {
    /// The count kept for a cause.
    pub open spec fn of(self, cause: Cause) -> nat {
        match cause {
            Cause::Opening => self.opening as nat,
            Cause::Middlegame => self.middlegame as nat,
            Cause::Endgame => self.endgame as nat,
            Cause::Time => self.time as nat,
            Cause::Strategy => self.strategy as nat,
        }
    }

    /// The tally of no games.
    pub fn new() -> (tally: Tally)
        ensures
            forall|cause: Cause| tally.of(cause) == 0,
    {
        Tally { opening: 0, middlegame: 0, endgame: 0, time: 0, strategy: 0 }
    }

    /// The count kept for `cause`.
    pub fn count(&self, cause: Cause) -> (n: usize)
        ensures
            n == self.of(cause),
    {
        match cause {
            Cause::Opening => self.opening,
            Cause::Middlegame => self.middlegame,
            Cause::Endgame => self.endgame,
            Cause::Time => self.time,
            Cause::Strategy => self.strategy,
        }
    }

    /// Counts one more game for `cause` and leaves the other counts alone.
    pub fn record(&mut self, cause: Cause)
        requires
            old(self).of(cause) < usize::MAX,
        ensures
            final(self).of(cause) == old(self).of(cause) + 1,
            forall|other: Cause| other != cause ==> final(self).of(other) == old(self).of(other),
    {
        match cause {
            Cause::Opening => {
                self.opening = self.opening + 1;
            },
            Cause::Middlegame => {
                self.middlegame = self.middlegame + 1;
            },
            Cause::Endgame => {
                self.endgame = self.endgame + 1;
            },
            Cause::Time => {
                self.time = self.time + 1;
            },
            Cause::Strategy => {
                self.strategy = self.strategy + 1;
            },
        }
    }

    /// The causes that occurred, each with its count: highest count first,
    /// equal counts in declaration order. Causes that never occurred are
    /// left out.
    pub fn ranking(&self) -> (list: Vec<Entry>)
        ensures
            is_ranking(list@, *self),
            list@.len() <= CAUSES,
    {
        let mut list: Vec<Entry> = Vec::new();
        let mut place: usize = 0;
        while place < CAUSES
            invariant
                place <= CAUSES,
                list@.len() <= place,
                forall|i: int|
                    0 <= i < list@.len() ==> (#[trigger] list@[i]).count > 0 && list@[i].count
                        == self.of(list@[i].cause) && list@[i].cause.position() < place,
                forall|i: int, j: int| 0 <= i < j < list@.len() ==> precedes(list@[i], list@[j]),
                forall|cause: Cause|
                    cause.position() < place && self.of(cause) > 0 ==> exists|i: int|
                        0 <= i < list@.len() && (#[trigger] list@[i]).cause == cause,
            decreases CAUSES - place,
        {
            match Cause::from_index(place) {
                Some(cause) => {
                    let n: usize = self.count(cause);
                    if n > 0 {
                        let mut at: usize = 0;
                        while at < list.len() && list[at].count >= n
                            invariant
                                at <= list@.len(),
                                forall|i: int| 0 <= i < at ==> (#[trigger] list@[i]).count >= n,
                            decreases list@.len() - at,
                        {
                            at = at + 1;
                        }
                        let ghost before = list@;
                        let entry = Entry { cause, count: n };
                        list.insert(at, entry);
                        proof {
                            assert(cause.position() == place);
                            assert forall|j: int| at <= j < before.len() implies (
                            #[trigger] before[j]).count < n by {
                                if j > at {
                                    assert(precedes(before[at as int], before[j]));
                                }
                            }
                            assert forall|i: int, j: int| 0 <= i < j < list@.len() implies precedes(
                                list@[i],
                                list@[j],
                            ) by {
                                let a = if i < at { i } else { i - 1 };
                                let b = if j < at { j } else { j - 1 };
                                if i != at && j != at {
                                    assert(precedes(before[a], before[b]));
                                } else if i == at {
                                    assert(before[b].count < n);
                                } else {
                                    assert(before[a].count >= n);
                                }
                            }
                            assert forall|other: Cause|
                                other.position() < place + 1 && self.of(other)
                                    > 0 implies exists|i: int|
                                0 <= i < list@.len() && (#[trigger] list@[i]).cause == other by {
                                if other == cause {
                                    assert(list@[at as int].cause == other);
                                } else {
                                    let i = choose|i: int|
                                        0 <= i < before.len() && (#[trigger] before[i]).cause
                                            == other;
                                    if i < at {
                                        assert(list@[i].cause == other);
                                    } else {
                                        assert(list@[i + 1].cause == other);
                                    }
                                }
                            }
                        }
                    }
                },
                None => {},
            }
            place = place + 1;
        }
        proof {
            assert forall|cause: Cause| self.of(cause) > 0 implies exists|i: int|
                0 <= i < list@.len() && (#[trigger] list@[i]).cause == cause by {
                assert(cause.position() < CAUSES);
            }
        }
        list
    }
}

/// Counts, per cause, the games recorded within the thirty days that end at
/// `now`. Games at or before the cutoff are not counted.
pub fn tally(games: &Vec<Game>, now: &Instant) -> (counts: Tally)
    ensures
        forall|cause: Cause| counts.of(cause) == recent_count(games@, *now, cause),
{
    let mut counts = Tally::new();
    let mut i: usize = 0;
    while i < games.len()
        invariant
            i <= games@.len(),
            forall|cause: Cause| counts.of(cause) == recent_count(games@.take(i as int), *now, cause),
            forall|cause: Cause| counts.of(cause) <= i,
        decreases games@.len() - i,
    {
        let game = games[i];
        proof {
            assert(games@.take(i + 1).drop_last() =~= games@.take(i as int));
            assert(games@.take(i + 1).last() == game);
        }
        if game.date.is_recent(now) {
            counts.record(game.cause);
        }
        i = i + 1;
    }
    proof {
        assert(games@.take(i as int) =~= games@);
    }
    counts
}

} // verus!
