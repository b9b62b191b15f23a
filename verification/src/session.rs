//! The live-game session: keyboard input is turned into game actions, with
//! submission gated on the game still running and the guess standing in
//! the dictionary, and typing gated on the word not being full yet.

use vstd::prelude::*;

use crate::game::{apply_action, game_wf, recomputed, Game, GameAction, GameView, State};
use crate::hints::Guess;
use crate::store::{spec_put, Store};
use crate::wordlist::{downcase_seq, Wordlist};

verus! {

/// One key of the on-screen or physical keyboard.
#[derive(Clone, Debug, PartialEq)]
pub enum Key {
    /// A printable key, appended to the in-progress guess.
    Glyph(String),
    /// Submits the in-progress guess.
    Enter,
    /// Removes the last character of the in-progress guess.
    Backspace,
}

/// What the session decided to do with one key.
#[derive(Debug, PartialEq)]
pub enum KeyOutcome {
    /// The key was accepted and this action is to be dispatched.
    Dispatch(GameAction),
    /// The submitted guess is not in the dictionary: the attempt costs no
    /// try and the player keeps editing.
    NotAWord,
    /// The key has no effect in this state.
    Ignored,
}

/// How a full session step went.
#[derive(Clone, Copy, Debug, PartialEq, Eq, Structural)]
pub enum KeyResponse {
    Accepted,
    NotAWord,
    Ignored,
}

/// A word with its last character removed; the empty word stays empty.
pub open spec fn backspaced(w: Seq<char>) -> Seq<char> {
    if w.len() > 0 {
        w.drop_last()
    } else {
        w
    }
}

/// Decides what one key does to the live game: nothing in a terminal
/// state; backspace always edits; enter submits only a dictionary word;
/// a glyph extends the guess only while it is shorter than the solution.
pub fn handle_key(game: &Game, wordlist: &Wordlist, key: &Key) -> (r: KeyOutcome)
    ensures
        game@.state != State::Running ==> r == KeyOutcome::Ignored,
        game@.state == State::Running ==> match *key {
            Key::Backspace => (r matches KeyOutcome::Dispatch(GameAction::SetCurrent(w))
                && w@ == backspaced(game@.current)),
            Key::Enter => if wordlist@.contains(downcase_seq(game@.current)) {
                r == KeyOutcome::Dispatch(GameAction::AddGuess)
            } else {
                r == KeyOutcome::NotAWord
            },
            Key::Glyph(s) => if game@.current.len() < game@.solution.len() {
                (r matches KeyOutcome::Dispatch(GameAction::SetCurrent(w)) && w@ == game@.current
                    + s@)
            } else {
                r == KeyOutcome::Ignored
            },
        },
{
    if !(game.state == State::Running) {
        return KeyOutcome::Ignored;
    }
    match key {
        Key::Backspace => {
            let w = game.current.to_string();
            let m = w.as_str().unicode_len();
            let shorter = if m > 0 {
                String::from_str(w.as_str().substring_char(0, m - 1))
            } else {
                w
            };
            assert(shorter@ =~= backspaced(game@.current));
            KeyOutcome::Dispatch(GameAction::SetCurrent(shorter))
        },
        Key::Enter => {
            let w = game.current.to_string();
            if wordlist.contains(w.as_str()) {
                KeyOutcome::Dispatch(GameAction::AddGuess)
            } else {
                KeyOutcome::NotAWord
            }
        },
        Key::Glyph(s) => {
            let mut w = game.current.to_string();
            let cur_len = w.as_str().unicode_len();
            let sol_len = game.solution.as_str().unicode_len();
            if cur_len < sol_len {
                w.append(s.as_str());
                KeyOutcome::Dispatch(GameAction::SetCurrent(w))
            } else {
                KeyOutcome::Ignored
            }
        },
    }
}

/// Runs one key through the session: decides as [`handle_key`] does and,
/// when the key is accepted, applies the action through the game's
/// recompute-and-persist transition. A rejected key — a terminal state,
/// a full word, or a guess missing from the dictionary — consumes no try
/// and leaves both the game and the store exactly as they were.
pub fn step(game: Game, wordlist: &Wordlist, key: &Key, store: &mut Store) -> (r: (
    Game,
    KeyResponse,
))
    requires
        old(store).wf(),
        game_wf(game@),
    ensures
        final(store).wf(),
        game_wf(r.0@),
        r.1 != KeyResponse::Accepted ==> r.0@ == game@ && final(store)@ == old(store)@,
        r.1 == KeyResponse::Accepted ==> (r.0@.id != 0 ==> final(store)@ == spec_put(
            old(store)@,
            r.0@,
        )) && (r.0@.id == 0 ==> final(store)@ == old(store)@),
        game@.state != State::Running ==> r.1 == KeyResponse::Ignored,
        game@.state == State::Running ==> match *key {
            Key::Backspace => r.1 == KeyResponse::Accepted && r.0@ == recomputed(
                (GameView { current: backspaced(game@.current), ..game@ }),
            ),
            Key::Enter => if wordlist@.contains(downcase_seq(game@.current)) {
                r.1 == KeyResponse::Accepted && r.0@ == recomputed(
                    apply_action(game@, old(store)@, GameAction::AddGuess),
                )
            } else {
                r.1 == KeyResponse::NotAWord
            },
            Key::Glyph(s) => if game@.current.len() < game@.solution.len() {
                r.1 == KeyResponse::Accepted && r.0@ == recomputed(
                    (GameView { current: game@.current + s@, ..game@ }),
                )
            } else {
                r.1 == KeyResponse::Ignored
            },
        },
{
    let outcome = handle_key(&game, wordlist, key);
    match outcome {
        KeyOutcome::Dispatch(action) => {
            let ghost a = action;
            let next = game.reduce(action, store);
            proof {
                match a {
                    GameAction::SetCurrent(w) => {
                        assert(apply_action(game@, old(store)@, a) =~= (GameView {
                            current: w@,
                            ..game@
                        }));
                    },
                    _ => {},
                }
            }
            (next, KeyResponse::Accepted)
        },
        KeyOutcome::NotAWord => (game, KeyResponse::NotAWord),
        KeyOutcome::Ignored => (game, KeyResponse::Ignored),
    }
}

} // verus!
