use nerdle::{Game, GameAction, History, State, Store};

fn play(id: u32, solution: &str, guesses: &[&str], store: &mut Store) -> Game {
    let mut game = Game::new(solution);
    game = game.reduce(GameAction::SetSolution(id, String::from(solution)), store);
    for word in guesses {
        game = game.reduce(GameAction::SetCurrent(String::from(*word)), store);
        game = game.reduce(GameAction::AddGuess, store);
    }
    game
}

const WRONG_SIX: [&str; 6] = ["AUDIO", "STOMP", "FLOUR", "BERRY", "CLING", "WHISK"];

#[test]
fn empty_history_has_zero_stats() {
    let store = Store::new();
    let history = History::new(&store);
    assert_eq!(history.played(), 0);
    assert_eq!(history.streak(), 0);
    assert_eq!(history.max_streak(), 0);
    assert_eq!(history.histogram(), vec![0, 0, 0, 0, 0, 0, 0]);
}

#[test]
fn lost_game_is_played_but_absent_from_histogram() {
    let mut store = Store::new();
    let game = play(1, "CRANE", &WRONG_SIX, &mut store);
    assert_eq!(game.state, State::Loss);

    let history = History::new(&store);
    assert_eq!(history.played(), 1);
    assert_eq!(history.histogram(), vec![0, 0, 0, 0, 0, 0, 0]);
    assert_eq!(history.streak(), 0);
    assert_eq!(history.max_streak(), 0);
}

#[test]
fn streaks_count_trailing_and_longest_runs() {
    let mut store = Store::new();
    // Three wins, one loss, two wins, ascending ids.
    play(1, "CRANE", &["CRANE"], &mut store);
    play(2, "CRANE", &["CRANE"], &mut store);
    play(3, "CRANE", &["CRANE"], &mut store);
    play(4, "CRANE", &WRONG_SIX, &mut store);
    play(5, "CRANE", &["CRANE"], &mut store);
    play(6, "CRANE", &["CRANE"], &mut store);

    let history = History::new(&store);
    assert_eq!(history.streak(), 2);
    assert_eq!(history.max_streak(), 3);
    assert_eq!(history.played(), 6);
}

#[test]
fn histogram_buckets_wins_by_tries() {
    let mut store = Store::new();
    play(1, "CRANE", &["CRANE"], &mut store);
    play(2, "CRANE", &["CRATE", "CRANE"], &mut store);
    play(3, "CRANE", &["CRATE", "CRAVE", "CRANE"], &mut store);
    play(4, "CRANE", &["CRATE", "CRANE"], &mut store);
    play(5, "CRANE", &WRONG_SIX, &mut store);

    let history = History::new(&store);
    assert_eq!(history.histogram(), vec![0, 1, 2, 1, 0, 0, 0]);
}

#[test]
fn abandoned_running_game_counts_as_played_only_with_a_guess() {
    let mut store = Store::new();
    // One guess submitted, game still running.
    play(1, "CRANE", &["CRATE"], &mut store);
    // Bound but never guessed: not played.
    let game = Game::new("CRANE");
    game.reduce(GameAction::SetSolution(2, String::from("CRANE")), &mut store);

    let history = History::new(&store);
    assert_eq!(history.played(), 1);
    assert_eq!(history.histogram(), vec![0, 0, 0, 0, 0, 0, 0]);
}

#[test]
fn streak_stops_at_most_recent_non_win() {
    let mut store = Store::new();
    play(1, "CRANE", &["CRANE"], &mut store);
    play(2, "CRANE", &WRONG_SIX, &mut store);
    let history = History::new(&store);
    assert_eq!(history.streak(), 0);
    assert_eq!(history.max_streak(), 1);
}
