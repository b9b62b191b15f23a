//! Core logic of a daily word-guessing game: per-letter hints for a guess
//! against a secret solution, the game state machine, a persistence store
//! keyed by puzzle id, and statistics derived from the stored history.

pub mod board;
pub mod config;
pub mod game;
pub mod hints;
pub mod history;
pub mod keyboard;
pub mod session;
pub mod store;
pub mod wordlist;

pub use config::Config;
pub use config::Wordle;
pub use game::Game;
pub use game::GameAction;
pub use game::State;
pub use history::History;
pub use hints::Guess;
pub use hints::Hint;
pub use keyboard::KeyState;
pub use store::Store;
pub use wordlist::Wordlist;
