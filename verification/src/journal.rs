//! The two operations on a log: appending a game and summarising the games
//! of the last thirty days, each at a given instant.
use vstd::prelude::*;
use crate::cause::{Cause, CAUSES};
use crate::game::Game;
use crate::instant::Instant;
use crate::report::{decimal, line_of, lines_of, render};
use crate::store::{decode, encode, line_for, stored_games, StoreError};
use crate::tally::{lemma_count_step, precedes, recent_count, tally, Entry};
use crate::text::texts;

verus! {

/// `list` is the summary of `games` at `now`: it holds exactly the causes
/// with at least one game in the thirty days that end at `now`, each with
/// the number of those games, the higher count first and equal counts in
/// declaration order.
pub open spec fn is_summary(list: Seq<Entry>, games: Seq<Game>, now: Instant) -> bool {
    &&& forall|i: int|
        0 <= i < list.len() ==> (#[trigger] list[i]).count > 0 && list[i].count == recent_count(
            games,
            now,
            list[i].cause,
        )
    &&& forall|i: int, j: int| 0 <= i < j < list.len() ==> precedes(list[i], list[j])
    &&& forall|cause: Cause|
        recent_count(games, now, cause) > 0 ==> exists|i: int|
            0 <= i < list.len() && (#[trigger] list[i]).cause == cause
}

/// `lines` is the report on the log `data` at `now`.
pub open spec fn is_report(lines: Seq<Seq<char>>, data: Seq<u8>, now: Instant) -> bool {
    &&& stored_games(data) is Ok
    &&& exists|list: Seq<Entry>|
        (#[trigger] is_summary(list, stored_games(data)->Ok_0, now)) && lines == lines_of(list)
}

/// The log after `game` was appended to the log `before`, if that is `after`.
pub open spec fn is_appended(after: Seq<u8>, before: Seq<u8>, game: Game) -> bool {
    match line_for(game) {
        Ok(line) => after == before + line,
        Err(_) => false,
    }
}

/// Every entry of `a` occurs in `b`.
pub open spec fn within(a: Seq<Entry>, b: Seq<Entry>) -> bool {
    forall|i: int| 0 <= i < a.len() ==> b.contains(#[trigger] a[i])
}

/// Each entry stands before all later ones in the order of `precedes`.
pub open spec fn in_rank_order(list: Seq<Entry>) -> bool {
    forall|i: int, j: int| 0 <= i < j < list.len() ==> precedes(list[i], list[j])
}

/// Two lists in rank order that hold the same entries are the same list.
pub proof fn lemma_rank_order_unique(a: Seq<Entry>, b: Seq<Entry>)
    requires
        in_rank_order(a),
        in_rank_order(b),
        within(a, b),
        within(b, a),
    ensures
        a == b,
    decreases a.len(),
{
    if a.len() == 0 {
        if b.len() > 0 {
            assert(a.contains(b[0]));
        }
        assert(a =~= b);
    } else {
        let la = a.len() - 1;
        assert(b.contains(a[la]));
        let jb = choose|j: int| 0 <= j < b.len() && b[j] == a[la];
        let lb = b.len() - 1;
        assert(a.contains(b[lb]));
        let ka = choose|k: int| 0 <= k < a.len() && a[k] == b[lb];
        if jb < lb {
            assert(precedes(b[jb], b[lb]));
            if ka < la {
                assert(precedes(a[ka], a[la]));
            }
        }
        assert(a[la] == b[lb]);
        let a0 = a.drop_last();
        let b0 = b.drop_last();
        assert forall|i: int| 0 <= i < a0.len() implies b0.contains(#[trigger] a0[i]) by {
            assert(b.contains(a[i]));
            let j = choose|j: int| 0 <= j < b.len() && b[j] == a[i];
            assert(precedes(a[i], a[la]));
            assert(b0[j] == a0[i]);
        }
        assert forall|i: int| 0 <= i < b0.len() implies a0.contains(#[trigger] b0[i]) by {
            assert(a.contains(b[i]));
            let j = choose|j: int| 0 <= j < a.len() && a[j] == b[i];
            assert(precedes(b[i], b[lb]));
            assert(a0[j] == b0[i]);
        }
        assert(in_rank_order(a0)) by {
            assert forall|i: int, j: int| 0 <= i < j < a0.len() implies precedes(a0[i], a0[j]) by {
                assert(precedes(a[i], a[j]));
            }
        }
        assert(in_rank_order(b0)) by {
            assert forall|i: int, j: int| 0 <= i < j < b0.len() implies precedes(b0[i], b0[j]) by {
                assert(precedes(b[i], b[j]));
            }
        }
        lemma_rank_order_unique(a0, b0);
        assert(a =~= a0.push(a[la]));
        assert(b =~= b0.push(b[lb]));
    }
}

/// The games and the instant decide the summary: there is at most one.
pub proof fn lemma_summary_unique(a: Seq<Entry>, b: Seq<Entry>, games: Seq<Game>, now: Instant)
    requires
        is_summary(a, games, now),
        is_summary(b, games, now),
    ensures
        a == b,
{
    assert forall|i: int| 0 <= i < a.len() implies b.contains(#[trigger] a[i]) by {
        let j = choose|j: int| 0 <= j < b.len() && (#[trigger] b[j]).cause == a[i].cause;
        assert(b[j] == a[i]);
    }
    assert forall|i: int| 0 <= i < b.len() implies a.contains(#[trigger] b[i]) by {
        let j = choose|j: int| 0 <= j < a.len() && (#[trigger] a[j]).cause == b[i].cause;
        assert(a[j] == b[i]);
    }
    lemma_rank_order_unique(a, b);
}

/// In a summary no count is followed by a higher one, and no cause stands
/// twice.
pub proof fn lemma_summary_descending(list: Seq<Entry>, games: Seq<Game>, now: Instant)
    requires
        is_summary(list, games, now),
    ensures
        forall|i: int, j: int|
            0 <= i < j < list.len() ==> (#[trigger] list[i]).count >= (#[trigger] list[j]).count
                && list[i].cause != list[j].cause,
{
    assert forall|i: int, j: int| 0 <= i < j < list.len() implies (#[trigger] list[i]).count >= (
    #[trigger] list[j]).count && list[i].cause != list[j].cause by {
        assert(precedes(list[i], list[j]));
    }
}

/// A cause stands in a summary exactly if at least one game was lost to it
/// after the cutoff.
pub proof fn lemma_summary_holds_recent_causes(
    list: Seq<Entry>,
    games: Seq<Game>,
    now: Instant,
    cause: Cause,
)
    requires
        is_summary(list, games, now),
    ensures
        recent_count(games, now, cause) > 0 <==> exists|i: int|
            0 <= i < list.len() && (#[trigger] list[i]).cause == cause,
{
}

/// The summary of a single game: its cause with the count one where the
/// game lies in the window, and nothing where it lies at or before the cutoff.
pub open spec fn summary_of_one(game: Game, now: Instant) -> Seq<Entry> {
    if game.date.in_window(now) {
        seq![Entry { cause: game.cause, count: 1 }]
    } else {
        Seq::empty()
    }
}

/// A log of one game has exactly one summary, that of the game.
pub proof fn lemma_single_game_summary(list: Seq<Entry>, game: Game, now: Instant)
    requires
        is_summary(list, seq![game], now),
    ensures
        list == summary_of_one(game, now),
{
    let games = seq![game];
    let want = summary_of_one(game, now);
    assert(games =~= Seq::<Game>::empty().push(game));
    assert forall|cause: Cause|
        recent_count(games, now, cause) == (if game.cause == cause && game.date.in_window(now) {
            1nat
        } else {
            0nat
        }) by {
        lemma_count_step(Seq::<Game>::empty(), game, now, cause);
    }
    assert(is_summary(want, games, now)) by {
        assert forall|cause: Cause| recent_count(games, now, cause) > 0 implies exists|i: int|
            0 <= i < want.len() && (#[trigger] want[i]).cause == cause by {
            assert(want[0].cause == cause);
        }
    }
    lemma_summary_unique(list, want, games, now);
}

/// Where a log reads back as one game, its report at any instant is the one
/// line of that game's cause with the count one if the game lies in the
/// window, and no line otherwise.
pub proof fn lemma_single_game_report(
    lines: Seq<Seq<char>>,
    data: Seq<u8>,
    game: Game,
    now: Instant,
)
    ensures
        stored_games(data) == Ok::<Seq<Game>, StoreError>(seq![game]) && is_report(lines, data, now)
            ==> lines == lines_of(summary_of_one(game, now)),
        lines_of(summary_of_one(game, now)) == (if game.date.in_window(now) {
            seq![game.cause.spelling() + seq![':', ' ', '1']]
        } else {
            Seq::<Seq<char>>::empty()
        }),
{
    if stored_games(data) == Ok::<Seq<Game>, StoreError>(seq![game]) && is_report(lines, data, now) {
        let list = choose|list: Seq<Entry>|
            (#[trigger] is_summary(list, stored_games(data)->Ok_0, now)) && lines == lines_of(list);
        lemma_single_game_summary(list, game, now);
    }
    let entry = Entry { cause: game.cause, count: 1 };
    assert(decimal(1) =~= seq!['1']);
    assert(line_of(entry) =~= game.cause.spelling() + seq![':', ' ', '1']);
    if game.date.in_window(now) {
        assert(lines_of(summary_of_one(game, now)) =~= seq![line_of(entry)]);
    } else {
        assert(lines_of(summary_of_one(game, now)) =~= Seq::<Seq<char>>::empty());
    }
}

/// The lines of games, one after the other in the games' order.
pub open spec fn lines_joined(games: Seq<Game>) -> Seq<u8>
    decreases games.len(),
{
    if games.len() == 0 {
        Seq::empty()
    } else {
        lines_joined(games.drop_last()) + line_for(games.last())->Ok_0
    }
}

/// Any number of appends, one after the other: where `stores` holds the log
/// before the first append and after each one, and `games` the game of each
/// append in call order, the last log is the first one followed by the
/// games' lines in call order, and by nothing else.
pub proof fn lemma_appends_in_call_order(stores: Seq<Seq<u8>>, games: Seq<Game>)
    requires
        stores.len() == games.len() + 1,
        forall|i: int|
            0 <= i < games.len() ==> is_appended(stores[i + 1], stores[i], #[trigger] games[i]),
    ensures
        stores.last() == stores[0] + lines_joined(games),
        forall|i: int| 0 <= i < games.len() ==> line_for(#[trigger] games[i]) is Ok,
    decreases games.len(),
{
    if games.len() == 0 {
        assert(stores[0] + lines_joined(games) =~= stores[0]);
    } else {
        let n = games.len() - 1;
        let front = games.drop_last();
        let earlier = stores.drop_last();
        assert forall|i: int| 0 <= i < front.len() implies is_appended(
            earlier[i + 1],
            earlier[i],
            #[trigger] front[i],
        ) by {
            assert(is_appended(stores[i + 1], stores[i], games[i]));
        }
        lemma_appends_in_call_order(earlier, front);
        assert(is_appended(stores[n + 1], stores[n], games[n]));
        assert(earlier.last() == stores[n]);
        assert(earlier[0] == stores[0]);
        assert(stores.last() =~= stores[0] + lines_joined(games));
        assert forall|i: int| 0 <= i < games.len() implies line_for(#[trigger] games[i]) is Ok by {
            if i < n {
                assert(front[i] == games[i]);
            }
        }
    }
}

/// Appends to `store` the line of a game lost to `cause` at `now`. What
/// `store` held stays in front of the new line; on an error `store` is left
/// as it was.
pub fn add_at(cause: Cause, now: Instant, store: &mut Vec<u8>) -> (done: Result<(), StoreError>)
    ensures
        match done {
            Ok(_) => is_appended(final(store)@, old(store)@, (Game { date: now, cause })),
            Err(e) => line_for((Game { date: now, cause })) == Err::<Seq<u8>, StoreError>(e)
                && final(store)@ == old(store)@,
        },
{
    let game = Game::new(now, cause);
    match encode(&game) {
        Ok(mut line) => {
            store.append(&mut line);
            Ok(())
        },
        Err(e) => Err(e),
    }
}

/// Counts the games of the thirty days that end at `now` per cause and ranks
/// the causes by count.
pub fn aggregate(games: &Vec<Game>, now: &Instant) -> (list: Vec<Entry>)
    ensures
        is_summary(list@, games@, *now),
        list@.len() <= CAUSES,
{
    let counts = tally(games, now);
    let list = counts.ranking();
    proof {
        assert forall|cause: Cause| recent_count(games@, *now, cause) > 0 implies exists|i: int|
            0 <= i < list@.len() && (#[trigger] list@[i]).cause == cause by {
            assert(counts.of(cause) > 0);
        }
    }
    list
}

/// Reads the log `data` and reports on the thirty days that end at `now`,
/// one line per cause that occurred. A log that cannot be read gives its
/// error and no line.
pub fn summarize_at(data: &[u8], now: &Instant) -> (report: Result<Vec<String>, StoreError>)
    ensures
        match report {
            Ok(lines) => is_report(texts(lines@), data@, *now) && lines@.len() <= CAUSES,
            Err(e) => stored_games(data@) == Err::<Seq<Game>, StoreError>(e),
        },
{
    match decode(data) {
        Err(e) => Err(e),
        Ok(games) => {
            let list = aggregate(&games, now);
            let lines = render(&list);
            proof {
                assert(stored_games(data@) == Ok::<Seq<Game>, StoreError>(games@));
                assert(stored_games(data@)->Ok_0 == games@);
                assert(is_summary(list@, stored_games(data@)->Ok_0, *now));
                assert(texts(lines@) == lines_of(list@));
                assert(texts(lines@).len() == lines@.len());
                assert(is_report(texts(lines@), data@, *now));
            }
            Ok(lines)
        },
    }
}

} // verus!
