use losses::cause::Cause;
use losses::game::Game;
use losses::instant::{Instant, WINDOW_SECS};
use losses::journal::{add_at, aggregate, summarize_at};
use losses::report::{decimal_text, render, render_line};
use losses::store::{decode, encode, StoreError};
use losses::tally::{tally, Entry, Tally};

// 2023-06-01T00:00:00Z
const NOW_SECS: i64 = 1_685_577_600;

fn log_of(games: &[Game]) -> Vec<u8> {
    let mut data: Vec<u8> = Vec::new();
    for game in games {
        data.extend(encode(game).unwrap());
    }
    data
}

#[test]
fn window_is_thirty_days() {
    assert_eq!(WINDOW_SECS, 30 * 24 * 60 * 60);
}

#[test]
fn appends_keep_call_order() {
    let mut store: Vec<u8> = Vec::new();
    let mut expected: Vec<Game> = Vec::new();
    let causes = [Cause::Time, Cause::Opening, Cause::Time, Cause::Strategy, Cause::Endgame];
    for (i, cause) in causes.iter().enumerate() {
        let now = Instant::new(NOW_SECS + i as i64, 0);
        assert_eq!(add_at(*cause, now, &mut store), Ok(()));
        expected.push(Game::new(now, *cause));
        assert_eq!(decode(&store), Ok(expected.clone()));
    }
    assert_eq!(store.iter().filter(|b| **b == b'\n').count(), causes.len());
}

#[test]
fn append_keeps_what_was_there() {
    let mut store: Vec<u8> = b"2023-01-02T03:04:05Z,Opening\n".to_vec();
    assert_eq!(add_at(Cause::Time, Instant::new(NOW_SECS, 0), &mut store), Ok(()));
    assert_eq!(store, b"2023-01-02T03:04:05Z,Opening\n2023-06-01T00:00:00Z,Time\n".to_vec());
}

#[test]
fn failed_append_changes_nothing() {
    let mut store: Vec<u8> = b"2023-01-02T03:04:05Z,Opening\n".to_vec();
    let before = store.clone();
    assert_eq!(
        add_at(Cause::Time, Instant::new(i64::MIN, 0), &mut store),
        Err(StoreError::Encoding)
    );
    assert_eq!(store, before);
}

#[test]
fn add_appends_one_line_dated_now() {
    let mut store: Vec<u8> = Vec::new();
    let before = Instant::now();
    assert_eq!(losses::add(Cause::Endgame, &mut store), Ok(()));
    assert_eq!(losses::add(Cause::Opening, &mut store), Ok(()));
    let after = Instant::now();
    let games = decode(&store).unwrap();
    assert_eq!(games.len(), 2);
    assert_eq!(games[0].cause, Cause::Endgame);
    assert_eq!(games[1].cause, Cause::Opening);
    assert!(!before.is_after(&games[0].date));
    assert!(!games[0].date.is_after(&games[1].date));
    assert!(!games[1].date.is_after(&after));
}

#[test]
fn only_games_after_the_cutoff_count() {
    let now = Instant::new(NOW_SECS, 0);
    let games = vec![
        Game::new(Instant::new(NOW_SECS - WINDOW_SECS - 1, 0), Cause::Opening),
        Game::new(Instant::new(NOW_SECS - WINDOW_SECS + 1, 0), Cause::Opening),
        Game::new(now, Cause::Opening),
    ];
    assert_eq!(aggregate(&games, &now), vec![Entry { cause: Cause::Opening, count: 2 }]);
    assert_eq!(summarize_at(&log_of(&games), &now), Ok(vec!["Opening: 2".to_string()]));
}

#[test]
fn the_cutoff_itself_is_outside() {
    let now = Instant::new(NOW_SECS, 500);
    let at_cutoff = Instant::new(NOW_SECS - WINDOW_SECS, 500);
    let just_after = Instant::new(NOW_SECS - WINDOW_SECS, 501);
    let just_before = Instant::new(NOW_SECS - WINDOW_SECS, 499);
    assert!(!at_cutoff.is_recent(&now));
    assert!(just_after.is_recent(&now));
    assert!(!just_before.is_recent(&now));
    assert!(Instant::new(i64::MAX, 0).is_recent(&now));
    assert!(!Instant::new(i64::MIN, 0).is_recent(&now));
    assert!(Instant::new(0, 0).is_recent(&Instant::new(i64::MIN, 0)));
    let games = vec![Game::new(at_cutoff, Cause::Time), Game::new(just_after, Cause::Endgame)];
    assert_eq!(aggregate(&games, &now), vec![Entry { cause: Cause::Endgame, count: 1 }]);
}

#[test]
fn later_is_by_seconds_then_nanoseconds() {
    let a = Instant::new(10, 5);
    assert!(Instant::new(11, 0).is_after(&a));
    assert!(Instant::new(10, 6).is_after(&a));
    assert!(!Instant::new(10, 5).is_after(&a));
    assert!(!Instant::new(9, 999_999_999).is_after(&a));
}

#[test]
fn most_frequent_cause_comes_first() {
    let now = Instant::new(NOW_SECS, 0);
    let recent = Instant::new(NOW_SECS - 60, 0);
    let games = vec![
        Game::new(recent, Cause::Time),
        Game::new(recent, Cause::Opening),
        Game::new(recent, Cause::Opening),
        Game::new(recent, Cause::Opening),
    ];
    assert_eq!(
        summarize_at(&log_of(&games), &now),
        Ok(vec!["Opening: 3".to_string(), "Time: 1".to_string()])
    );
}

#[test]
fn lower_declared_cause_with_higher_count_comes_first() {
    let now = Instant::new(NOW_SECS, 0);
    let recent = Instant::new(NOW_SECS - 60, 0);
    let games = vec![
        Game::new(recent, Cause::Opening),
        Game::new(recent, Cause::Strategy),
        Game::new(recent, Cause::Strategy),
        Game::new(recent, Cause::Endgame),
        Game::new(recent, Cause::Endgame),
        Game::new(recent, Cause::Endgame),
    ];
    assert_eq!(
        aggregate(&games, &now),
        vec![
            Entry { cause: Cause::Endgame, count: 3 },
            Entry { cause: Cause::Strategy, count: 2 },
            Entry { cause: Cause::Opening, count: 1 },
        ]
    );
}

#[test]
fn equal_counts_keep_declaration_order() {
    let now = Instant::new(NOW_SECS, 0);
    let recent = Instant::new(NOW_SECS - 60, 0);
    let games = vec![
        Game::new(recent, Cause::Strategy),
        Game::new(recent, Cause::Time),
        Game::new(recent, Cause::Endgame),
        Game::new(recent, Cause::Middlegame),
        Game::new(recent, Cause::Opening),
        Game::new(recent, Cause::Time),
    ];
    assert_eq!(
        summarize_at(&log_of(&games), &now),
        Ok(vec![
            "Time: 2".to_string(),
            "Opening: 1".to_string(),
            "Middlegame: 1".to_string(),
            "Endgame: 1".to_string(),
            "Strategy: 1".to_string(),
        ])
    );
}

#[test]
fn no_recent_games_give_an_empty_report() {
    let now = Instant::new(NOW_SECS, 0);
    assert_eq!(summarize_at(b"", &now), Ok(vec![]));
    let old = vec![Game::new(Instant::new(0, 0), Cause::Time)];
    assert_eq!(summarize_at(&log_of(&old), &now), Ok(vec![]));
    assert_eq!(aggregate(&vec![], &now), vec![]);
}

#[test]
fn malformed_line_gives_no_report() {
    let now = Instant::new(NOW_SECS, 0);
    let data = b"2023-05-31T00:00:00Z,Opening\n2023-05-31T00:00:00Z,Luck\n2023-05-31T00:00:00Z,Time\n";
    assert_eq!(summarize_at(data, &now), Err(StoreError::Category));
    assert_eq!(losses::summarize(data), Err(StoreError::Category));
    assert_eq!(losses::summarize(b"soon,Opening\n"), Err(StoreError::Timestamp));
}

#[test]
fn summarize_counts_what_was_just_added() {
    let mut store: Vec<u8> = log_of(&[Game::new(Instant::new(0, 0), Cause::Strategy)]);
    assert_eq!(losses::add(Cause::Time, &mut store), Ok(()));
    assert_eq!(losses::add(Cause::Middlegame, &mut store), Ok(()));
    assert_eq!(losses::add(Cause::Time, &mut store), Ok(()));
    assert_eq!(
        losses::summarize(&store),
        Ok(vec!["Time: 2".to_string(), "Middlegame: 1".to_string()])
    );
}

#[test]
fn tally_counts_per_cause() {
    let now = Instant::new(NOW_SECS, 0);
    let recent = Instant::new(NOW_SECS - 1, 0);
    let games = vec![
        Game::new(recent, Cause::Time),
        Game::new(Instant::new(0, 0), Cause::Time),
        Game::new(recent, Cause::Strategy),
        Game::new(recent, Cause::Time),
    ];
    let counts = tally(&games, &now);
    assert_eq!(counts.count(Cause::Time), 2);
    assert_eq!(counts.count(Cause::Strategy), 1);
    assert_eq!(counts.count(Cause::Opening), 0);
    assert_eq!(counts.count(Cause::Middlegame), 0);
    assert_eq!(counts.count(Cause::Endgame), 0);
}

#[test]
fn record_adds_one_to_one_cause() {
    let mut counts = Tally::new();
    counts.record(Cause::Endgame);
    counts.record(Cause::Endgame);
    counts.record(Cause::Opening);
    assert_eq!(
        counts,
        Tally { opening: 1, middlegame: 0, endgame: 2, time: 0, strategy: 0 }
    );
    assert_eq!(
        counts.ranking(),
        vec![Entry { cause: Cause::Endgame, count: 2 }, Entry { cause: Cause::Opening, count: 1 }]
    );
    assert_eq!(Tally::new().ranking(), vec![]);
}

#[test]
fn numbers_are_written_in_decimal() {
    assert_eq!(decimal_text(0), "0");
    assert_eq!(decimal_text(7), "7");
    assert_eq!(decimal_text(10), "10");
    assert_eq!(decimal_text(109), "109");
    assert_eq!(decimal_text(1_234_567_890), "1234567890");
    assert_eq!(decimal_text(usize::MAX), format!("{}", usize::MAX));
}

#[test]
fn lines_show_cause_and_count() {
    let entry = Entry { cause: Cause::Middlegame, count: 42 };
    assert_eq!(render_line(&entry), "Middlegame: 42");
    assert_eq!(
        render(&vec![entry, Entry { cause: Cause::Time, count: 1 }]),
        vec!["Middlegame: 42".to_string(), "Time: 1".to_string()]
    );
    assert_eq!(render(&vec![]), Vec::<String>::new());
}

#[test]
fn a_single_game_is_reported_once_inside_the_window() {
    let written = Instant::new(NOW_SECS, 250_000_000);
    let causes = [Cause::Opening, Cause::Middlegame, Cause::Endgame, Cause::Time, Cause::Strategy];
    for cause in causes {
        let mut store: Vec<u8> = Vec::new();
        assert_eq!(add_at(cause, written, &mut store), Ok(()));
        let inside = Instant::new(NOW_SECS + WINDOW_SECS, 249_999_999);
        assert_eq!(summarize_at(&store, &inside), Ok(vec![format!("{:?}: 1", cause)]));
        let at_the_edge = Instant::new(NOW_SECS + WINDOW_SECS, 250_000_000);
        assert_eq!(summarize_at(&store, &at_the_edge), Ok(vec![]));
        let before_it_was_written = Instant::new(NOW_SECS - 1, 0);
        assert_eq!(summarize_at(&store, &before_it_was_written), Ok(vec![format!("{:?}: 1", cause)]));
    }
}

#[test]
fn a_report_has_at_most_one_line_per_cause() {
    let mut store: Vec<u8> = Vec::new();
    let causes = [Cause::Opening, Cause::Middlegame, Cause::Endgame, Cause::Time, Cause::Strategy];
    for round in 0..3 {
        for cause in causes {
            assert_eq!(losses::add(cause, &mut store), Ok(()));
        }
        let lines = losses::summarize(&store).unwrap();
        assert_eq!(lines.len(), 5);
        assert_eq!(lines[0], format!("Opening: {}", round + 1));
        assert_eq!(lines[4], format!("Strategy: {}", round + 1));
    }
}
