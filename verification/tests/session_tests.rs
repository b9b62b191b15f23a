use nerdle::session::{handle_key, step, Key, KeyOutcome, KeyResponse};
use nerdle::{Game, GameAction, State, Store, Wordlist};

fn dictionary() -> Wordlist {
    Wordlist::new(vec![
        String::from("crane"),
        String::from("crate"),
        String::from("react"),
    ])
}

fn bound_game(store: &mut Store) -> Game {
    Game::new("CRANE").reduce(GameAction::SetSolution(1, String::from("CRANE")), store)
}

fn type_word(mut game: Game, wordlist: &Wordlist, word: &str, store: &mut Store) -> Game {
    for c in word.chars() {
        let (next, response) = step(game, wordlist, &Key::Glyph(c.to_string()), store);
        assert_eq!(response, KeyResponse::Accepted);
        game = next;
    }
    game
}

#[test]
fn unknown_word_is_rejected_without_consuming_a_try() {
    let mut store = Store::new();
    let wordlist = dictionary();
    let game = bound_game(&mut store);
    let game = type_word(game, &wordlist, "XYZZY", &mut store);
    let before = store.load_all();

    assert_eq!(game.tries(), 0);
    let (game, response) = step(game, &wordlist, &Key::Enter, &mut store);
    assert_eq!(response, KeyResponse::NotAWord);
    assert_eq!(game.tries(), 0);
    // The player keeps editing the same word.
    assert_eq!(game.current.to_string(), "XYZZY");
    assert_eq!(store.load_all(), before);
}

#[test]
fn dictionary_word_is_accepted_and_scored() {
    let mut store = Store::new();
    let wordlist = dictionary();
    let game = bound_game(&mut store);
    let game = type_word(game, &wordlist, "CRANE", &mut store);
    let (game, response) = step(game, &wordlist, &Key::Enter, &mut store);
    assert_eq!(response, KeyResponse::Accepted);
    assert_eq!(game.tries(), 1);
    assert_eq!(game.state, State::Win);
    assert_eq!(game.current.to_string(), "");
}

#[test]
fn typing_stops_when_the_word_is_full() {
    let mut store = Store::new();
    let wordlist = dictionary();
    let game = bound_game(&mut store);
    let game = type_word(game, &wordlist, "CRANE", &mut store);
    let (game, response) = step(game, &wordlist, &Key::Glyph(String::from("S")), &mut store);
    assert_eq!(response, KeyResponse::Ignored);
    assert_eq!(game.current.to_string(), "CRANE");
}

#[test]
fn backspace_edits_while_running() {
    let mut store = Store::new();
    let wordlist = dictionary();
    let game = bound_game(&mut store);
    let game = type_word(game, &wordlist, "CR", &mut store);
    let (game, response) = step(game, &wordlist, &Key::Backspace, &mut store);
    assert_eq!(response, KeyResponse::Accepted);
    assert_eq!(game.current.to_string(), "C");
}

#[test]
fn backspace_on_empty_word_stays_empty() {
    let mut store = Store::new();
    let wordlist = dictionary();
    let game = bound_game(&mut store);
    let (game, response) = step(game, &wordlist, &Key::Backspace, &mut store);
    assert_eq!(response, KeyResponse::Accepted);
    assert_eq!(game.current.to_string(), "");
}

#[test]
fn keys_are_ignored_in_terminal_states() {
    let mut store = Store::new();
    let wordlist = dictionary();
    let game = bound_game(&mut store);
    let game = type_word(game, &wordlist, "CRANE", &mut store);
    let (game, _) = step(game, &wordlist, &Key::Enter, &mut store);
    assert_eq!(game.state, State::Win);

    let (game, response) = step(game, &wordlist, &Key::Glyph(String::from("A")), &mut store);
    assert_eq!(response, KeyResponse::Ignored);
    let (game, response) = step(game, &wordlist, &Key::Backspace, &mut store);
    assert_eq!(response, KeyResponse::Ignored);
    assert_eq!(game.tries(), 1);
}

#[test]
fn handle_key_decides_without_applying() {
    let mut store = Store::new();
    let wordlist = dictionary();
    let game = bound_game(&mut store);
    match handle_key(&game, &wordlist, &Key::Glyph(String::from("C"))) {
        KeyOutcome::Dispatch(GameAction::SetCurrent(w)) => assert_eq!(w, "C"),
        other => panic!("expected a SetCurrent dispatch, got {:?}", other),
    }
    match handle_key(&game, &wordlist, &Key::Enter) {
        KeyOutcome::NotAWord => {}
        other => panic!("expected NotAWord for the empty word, got {:?}", other),
    }
}

#[test]
fn guess_submission_is_case_insensitive_against_the_dictionary() {
    let mut store = Store::new();
    let wordlist = dictionary();
    let game = bound_game(&mut store);
    // The keyboard sends uppercase glyphs; the stored list is lowercase.
    let game = type_word(game, &wordlist, "CRATE", &mut store);
    let (game, response) = step(game, &wordlist, &Key::Enter, &mut store);
    assert_eq!(response, KeyResponse::Accepted);
    assert_eq!(game.tries(), 1);
    assert_eq!(game.state, State::Running);
}
