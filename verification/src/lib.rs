//! Bookkeeping for lost chess games: each loss is logged with its cause and
//! the instant it was recorded, and the log can be summarised into a ranking
//! of the causes seen during the last thirty days.
use vstd::prelude::*;

pub mod cause;
pub mod game;
pub mod instant;
pub mod journal;
pub mod report;
pub mod store;
pub mod tally;
pub mod text;

pub use crate::cause::Cause;
pub use crate::game::Game;
pub use crate::instant::Instant;
pub use crate::store::StoreError;
pub use crate::tally::Entry;

verus! {

/// Appends to `store` the line of a game lost to `cause` just now. What
/// `store` held stays in front of the new line. The clock's instant can
/// always be written, so the only error is one of writing the line's two
/// fields as comma-separated text; `store` is then left as it was.
pub fn add(cause: Cause, store: &mut Vec<u8>) -> (done: Result<(), StoreError>)
    ensures
        match done {
            Ok(_) => exists|now: Instant|
                now.from_clock() && #[trigger] crate::journal::is_appended(
                    final(store)@,
                    old(store)@,
                    (Game { date: now, cause }),
                ),
            Err(e) => e == StoreError::Encoding && final(store)@ == old(store)@ && exists|
                now: Instant,
            |
                now.from_clock() && (#[trigger] crate::store::fields_of(
                    (Game { date: now, cause }),
                )) is Some && crate::store::csv_line_of(
                    crate::store::fields_of((Game { date: now, cause }))->Some_0,
                ) is None,
        },
{
    let now = Instant::now();
    let done = crate::journal::add_at(cause, now, store);
    proof {
        let game = Game { date: now, cause };
        assert(crate::store::fields_of(game) is Some);
        if done is Ok {
            assert(crate::journal::is_appended(final(store)@, old(store)@, game));
        }
    }
    done
}

/// Reads the log `data` and reports on the last thirty days, one line per
/// cause that occurred, the most frequent cause first. A log that cannot be
/// read gives its error and no line.
pub fn summarize(data: &[u8]) -> (report: Result<Vec<String>, StoreError>)
    ensures
        match report {
            Ok(lines) => lines@.len() <= crate::cause::CAUSES && exists|now: Instant|
                now.from_clock() && #[trigger] crate::journal::is_report(
                    crate::text::texts(lines@),
                    data@,
                    now,
                ),
            Err(e) => crate::store::stored_games(data@) == Err::<Seq<Game>, StoreError>(e),
        },
{
    let now = Instant::now();
    let report = crate::journal::summarize_at(data, &now);
    proof {
        if report is Ok {
            assert(crate::journal::is_report(crate::text::texts(report->Ok_0@), data@, now));
        }
    }
    report
}

} // verus!
