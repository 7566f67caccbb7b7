//! The stored form of the log: comma-separated lines, one game per line, the
//! timestamp first and the cause second, without a header line.
use vstd::prelude::*;
use crate::cause::{lemma_spelling_round_trip, Cause};
use crate::game::Game;
use crate::instant::Instant;
use crate::text::{cells, texts};

verus! {

/// Why a log could not be read or a game not be written.
#[derive(Debug, Clone, Copy, PartialEq, Eq, Structural)]
pub enum StoreError {
    /// The bytes are not well-formed comma-separated text.
    Syntax,
    /// A line does not have exactly two fields.
    FieldCount,
    /// The first field of a line is not a timestamp.
    Timestamp,
    /// The second field of a line does not spell a cause.
    Category,
    /// A game could not be written as a line.
    Encoding,
}

/// The error of the csv crate. Nothing is read from it.
#[verifier::external_type_specification]
#[verifier::external_body]
pub struct ExCsvError(csv::Error);

/// The records that the csv crate reads from the bytes of a log without
/// header line, each record as the list of its fields, or `None` where the
/// csv crate reports an error on any record.
pub uninterp spec fn csv_rows_of(data: Seq<u8>) -> Option<Seq<Seq<Seq<char>>>>;

/// The bytes that the csv crate writes for one record with the given fields,
/// line terminator included, or `None` where it reports an error.
pub uninterp spec fn csv_line_of(fields: Seq<Seq<char>>) -> Option<Seq<u8>>;

/// Reads all records with `csv::Reader::records`, from a reader that
/// `csv::ReaderBuilder` makes with `has_headers(false)` and otherwise default
/// settings, and copies each field into a `String`. The contract only names
/// what the csv crate returns: the rows where every record was read, no rows
/// where one failed.
#[verifier::external_body]
pub(crate) fn csv_read(data: &[u8]) -> (rows: Result<Vec<Vec<String>>, csv::Error>)
    ensures
        match rows {
            Ok(list) => csv_rows_of(data@) == Some(cells(list@)),
            Err(_) => csv_rows_of(data@) is None,
        },
{
    let mut reader = csv::ReaderBuilder::new().has_headers(false).from_reader(data);
    let mut rows = Vec::new();
    for record in reader.records() {
        rows.push(record?.iter().map(String::from).collect());
    }
    Ok(rows)
}

/// Writes one record with `csv::Writer::write_record` into an empty buffer,
/// through a writer that `csv::WriterBuilder` makes with `has_headers(false)`
/// and otherwise default settings, and hands the buffer back after
/// `csv::Writer::flush`. The contract only names what the csv crate wrote.
#[verifier::external_body]
pub(crate) fn csv_write(fields: &Vec<String>) -> (line: Result<Vec<u8>, csv::Error>)
    ensures
        match line {
            Ok(bytes) => csv_line_of(texts(fields@)) == Some(bytes@),
            Err(_) => csv_line_of(texts(fields@)) is None,
        },
{
    let mut writer = csv::WriterBuilder::new().has_headers(false).from_writer(Vec::new());
    writer.write_record(fields)?;
    writer.flush()?;
    Ok(writer.get_ref().clone())
}

/// The two fields of a game's line, or `None` where its date cannot be
/// written.
pub open spec fn fields_of(game: Game) -> Option<Seq<Seq<char>>> {
    match game.date.written() {
        Some(stamp) => Some(seq![stamp, game.cause.spelling()]),
        None => None,
    }
}

/// The line under which a game is stored.
pub open spec fn line_for(game: Game) -> Result<Seq<u8>, StoreError> {
    match fields_of(game) {
        Some(fields) => match csv_line_of(fields) {
            Some(bytes) => Ok(bytes),
            None => Err(StoreError::Encoding),
        },
        None => Err(StoreError::Encoding),
    }
}

/// The game made of a timestamp and a cause as they were read, or the error
/// for the one that could not be read: the timestamp is looked at first.
pub open spec fn game_from(date: Option<Instant>, cause: Option<Cause>) -> Result<
    Game,
    StoreError,
> {
    match date {
        None => Err(StoreError::Timestamp),
        Some(date) => match cause {
            None => Err(StoreError::Category),
            Some(cause) => Ok(Game { date, cause }),
        },
    }
}

/// The game that a row of fields stands for.
pub open spec fn row_game(row: Seq<Seq<char>>) -> Result<Game, StoreError> {
    if row.len() != 2 {
        Err(StoreError::FieldCount)
    } else {
        game_from(Instant::read(row[0]), Cause::named(row[1]))
    }
}

/// The games that rows stand for, in their order; where rows fail, the error
/// of the first one that does.
pub open spec fn rows_games(rows: Seq<Seq<Seq<char>>>) -> Result<Seq<Game>, StoreError>
    decreases rows.len(),
{
    if rows.len() == 0 {
        Ok(Seq::empty())
    } else {
        match rows_games(rows.drop_last()) {
            Err(e) => Err(e),
            Ok(games) => match row_game(rows.last()) {
                Err(e) => Err(e),
                Ok(game) => Ok(games.push(game)),
            },
        }
    }
}

/// The games that the bytes of a log hold.
pub open spec fn stored_games(data: Seq<u8>) -> Result<Seq<Game>, StoreError> {
    match csv_rows_of(data) {
        None => Err(StoreError::Syntax),
        Some(rows) => rows_games(rows),
    }
}

/// An error among the first rows is the error of all rows.
pub proof fn lemma_first_error_stays(rows: Seq<Seq<Seq<char>>>, n: int, e: StoreError)
    requires
        0 <= n <= rows.len(),
        rows_games(rows.take(n)) == Err::<Seq<Game>, StoreError>(e),
    ensures
        rows_games(rows) == Err::<Seq<Game>, StoreError>(e),
    decreases rows.len() - n,
{
    if n == rows.len() {
        assert(rows.take(n) =~= rows);
    } else {
        assert(rows.take(n + 1).drop_last() =~= rows.take(n));
        lemma_first_error_stays(rows, n + 1, e);
    }
}

/// One row that cannot be read fails all rows, however many of the others
/// can be read.
pub proof fn lemma_bad_row_fails(rows: Seq<Seq<Seq<char>>>, k: int)
    requires
        0 <= k < rows.len(),
        row_game(rows[k]) is Err,
    ensures
        rows_games(rows) is Err,
    decreases rows.len(),
{
    if k < rows.len() - 1 {
        assert(rows.drop_last()[k] == rows[k]);
        lemma_bad_row_fails(rows.drop_last(), k);
    }
}

/// Where every row can be read, the rows give one game each, in the order
/// of the rows.
pub proof fn lemma_rows_all_read(rows: Seq<Seq<Seq<char>>>)
    requires
        forall|i: int| 0 <= i < rows.len() ==> (#[trigger] row_game(rows[i])) is Ok,
    ensures
        rows_games(rows) is Ok,
        rows_games(rows)->Ok_0.len() == rows.len(),
        forall|i: int|
            0 <= i < rows.len() ==> rows_games(rows)->Ok_0[i] == (#[trigger] row_game(
                rows[i],
            ))->Ok_0,
    decreases rows.len(),
{
    if rows.len() > 0 {
        let front = rows.drop_last();
        assert forall|i: int| 0 <= i < front.len() implies (#[trigger] row_game(front[i])) is Ok by {
            assert(front[i] == rows[i]);
        }
        lemma_rows_all_read(front);
        assert(row_game(rows[rows.len() - 1]) is Ok);
        assert forall|i: int| 0 <= i < rows.len() implies rows_games(rows)->Ok_0[i] == (
        #[trigger] row_game(rows[i]))->Ok_0 by {
            if i < front.len() {
                assert(front[i] == rows[i]);
                assert(rows_games(front)->Ok_0[i] == row_game(front[i])->Ok_0);
            }
        }
    }
}

/// Makes a game of a timestamp and a cause as they were read.
pub fn assemble(date: Option<Instant>, cause: Option<Cause>) -> (game: Result<Game, StoreError>)
    ensures
        game == game_from(date, cause),
{
    match date {
        None => Err(StoreError::Timestamp),
        Some(date) => match cause {
            None => Err(StoreError::Category),
            Some(cause) => Ok(Game::new(date, cause)),
        },
    }
}

/// Reads the game of one row: exactly two fields, a timestamp and the
/// spelling of a cause.
pub fn decode_row(row: &Vec<String>) -> (game: Result<Game, StoreError>)
    ensures
        game == row_game(texts(row@)),
{
    if row.len() != 2 {
        Err(StoreError::FieldCount)
    } else {
        let date = Instant::parse(row[0].as_str());
        let cause = Cause::from_name(&row[1]);
        assemble(date, cause)
    }
}

/// Reads the games of all rows; the first row that cannot be read fails the
/// whole list.
pub fn decode_rows(rows: &Vec<Vec<String>>) -> (games: Result<Vec<Game>, StoreError>)
    ensures
        match games {
            Ok(list) => rows_games(cells(rows@)) == Ok::<Seq<Game>, StoreError>(list@),
            Err(e) => rows_games(cells(rows@)) == Err::<Seq<Game>, StoreError>(e),
        },
{
    let mut list: Vec<Game> = Vec::new();
    let mut i: usize = 0;
    while i < rows.len()
        invariant
            i <= rows@.len(),
            rows_games(cells(rows@).take(i as int)) == Ok::<Seq<Game>, StoreError>(list@),
        decreases rows@.len() - i,
    {
        let ghost all = cells(rows@);
        proof {
            assert(all.take(i + 1).drop_last() =~= all.take(i as int));
            assert(all.take(i + 1).last() == texts(rows@[i as int]@));
        }
        match decode_row(&rows[i]) {
            Ok(game) => {
                list.push(game);
            },
            Err(e) => {
                proof {
                    lemma_first_error_stays(all, i + 1, e);
                }
                return Err(e);
            },
        }
        i = i + 1;
    }
    proof {
        assert(cells(rows@).take(i as int) =~= cells(rows@));
    }
    Ok(list)
}

/// Reads the games of a log from its bytes. Any line that is not a game
/// fails the whole log.
pub fn decode(data: &[u8]) -> (games: Result<Vec<Game>, StoreError>)
    ensures
        match games {
            Ok(list) => stored_games(data@) == Ok::<Seq<Game>, StoreError>(list@),
            Err(e) => stored_games(data@) == Err::<Seq<Game>, StoreError>(e),
        },
{
    match csv_read(data) {
        Err(_) => Err(StoreError::Syntax),
        Ok(rows) => decode_rows(&rows),
    }
}

/// Writes a game as its line, line terminator included.
pub fn encode(game: &Game) -> (line: Result<Vec<u8>, StoreError>)
    ensures
        match line {
            Ok(bytes) => line_for(*game) == Ok::<Seq<u8>, StoreError>(bytes@),
            Err(e) => line_for(*game) == Err::<Seq<u8>, StoreError>(e),
        },
{
    match game.date.text() {
        None => Err(StoreError::Encoding),
        Some(stamp) => {
            let mut fields: Vec<String> = Vec::new();
            fields.push(stamp);
            fields.push(game.cause.name());
            proof {
                assert(texts(fields@) =~= seq![stamp@, game.cause.spelling()]);
            }
            match csv_write(&fields) {
                Ok(bytes) => Ok(bytes),
                Err(_) => Err(StoreError::Encoding),
            }
        },
    }
}

/// A row made of a timestamp that reads as the game's date and of the
/// spelling of the game's cause stands for that game.
pub proof fn lemma_row_of_game(game: Game, stamp: Seq<char>)
    requires
        Instant::read(stamp) == Some(game.date),
    ensures
        row_game(seq![stamp, game.cause.spelling()]) == Ok::<Game, StoreError>(game),
{
    lemma_spelling_round_trip(game.cause);
}

} // verus!
