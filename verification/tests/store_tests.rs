use nerdle::{Game, GameAction, Store};

fn finished_game(id: u32, solution: &str, guess: &str, store: &mut Store) -> Game {
    let game = Game::new(solution);
    let game = game.reduce(GameAction::SetSolution(id, String::from(solution)), store);
    let game = game.reduce(GameAction::SetCurrent(String::from(guess)), store);
    game.reduce(GameAction::AddGuess, store)
}

#[test]
fn save_then_load_round_trips() {
    let mut store = Store::new();
    let mut scratch = Store::new();
    let game = finished_game(5, "CRANE", "CRANE", &mut scratch);

    game.save(&mut store);
    let loaded = store.get(5);
    assert_eq!(loaded, Some(game));
}

#[test]
fn load_of_missing_id_is_none() {
    let mut store = Store::new();
    let mut scratch = Store::new();
    let game = finished_game(5, "CRANE", "CRANE", &mut scratch);
    game.save(&mut store);
    assert_eq!(store.get(4), None);
}

#[test]
fn save_overwrites_the_whole_record() {
    let mut store = Store::new();
    let mut scratch = Store::new();
    let first = finished_game(5, "CRANE", "CRATE", &mut scratch);
    let second = finished_game(5, "CRANE", "CRANE", &mut scratch);

    first.save(&mut store);
    second.save(&mut store);
    assert_eq!(store.get(5), Some(second));
    assert_eq!(store.load_all().len(), 1);
}

#[test]
fn load_all_is_sorted_ascending_by_id() {
    let mut store = Store::new();
    let mut scratch = Store::new();
    for id in [3u32, 1, 2] {
        finished_game(id, "CRANE", "CRANE", &mut scratch).save(&mut store);
    }
    let ids: Vec<u32> = store.load_all().iter().map(|g| g.id).collect();
    assert_eq!(ids, vec![1, 2, 3]);
    assert_eq!(store.ids(), vec![1, 2, 3]);
}

#[test]
fn sentinel_id_is_never_persisted() {
    let mut store = Store::new();
    let game = Game::new("CRANE").update(&mut store);
    game.save(&mut store);
    assert!(store.load_all().is_empty());
    assert_eq!(store.get(0), None);
}

#[test]
fn records_accumulate_one_per_id() {
    let mut store = Store::new();
    let mut scratch = Store::new();
    for id in 1u32..=4 {
        finished_game(id, "CRANE", "CRANE", &mut scratch).save(&mut store);
        finished_game(id, "CRANE", "CRATE", &mut scratch).save(&mut store);
    }
    assert_eq!(store.load_all().len(), 4);
}
