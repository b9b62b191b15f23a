//! What the keyboard shows for each key: the hint most recently earned by
//! that letter across all submitted guesses, or unused.

use vstd::prelude::*;

use crate::game::Game;
use crate::hints::{hint_at, hints_spec, Hint};

verus! {

/// How a keyboard key is coloured.
#[derive(Clone, Copy, Debug, PartialEq, Eq, Structural)]
pub enum KeyState {
    Unused,
    Incorrect,
    Correct,
    Misplaced,
}

impl Default for KeyState {
    /// A key no guess has touched yet.
    fn default() -> (r: Self)
        ensures
            r == KeyState::Unused,
    {
        KeyState::Unused
    }
}

/// The key colour a hint dictates.
pub open spec fn key_state_of_hint(h: Hint) -> KeyState {
    match h {
        Hint::Correct => KeyState::Correct,
        Hint::Incorrect => KeyState::Incorrect,
        Hint::Misplaced => KeyState::Misplaced,
    }
}

/// The hint earned by the last occurrence of `c` among the first `n`
/// scored positions of guess `g`, if `c` occurs there at all.
pub open spec fn last_hint_at(g: Seq<char>, sol: Seq<char>, c: char, n: int) -> Option<Hint>
    decreases n,
{
    if n <= 0 {
        None
    } else if g[n - 1] == c {
        Some(hint_at(g, sol, n - 1))
    } else {
        last_hint_at(g, sol, c, n - 1)
    }
}

/// The colour of key `c` after these guesses: the hint of its last scored
/// occurrence in the most recent guess that contains it, or unused.
pub open spec fn key_state_spec(guesses: Seq<Seq<char>>, sol: Seq<char>, c: char) -> KeyState
    decreases guesses.len(),
{
    if guesses.len() == 0 {
        KeyState::Unused
    } else {
        let g = guesses.last();
        match last_hint_at(g, sol, c, vstd::math::min(g.len() as int, sol.len() as int)) {
            Some(h) => key_state_of_hint(h),
            None => key_state_spec(guesses.drop_last(), sol, c),
        }
    }
}

/// Computes the keyboard colour of one key for the given game.
pub fn key_state(game: &Game, key: char) -> (r: KeyState)
    ensures
        r == key_state_spec(game@.guesses, game@.solution, key),
{
    let ghost gs = game@.guesses;
    let ghost sol = game@.solution;
    let sol_len = game.solution.as_str().unicode_len();
    let mut i: usize = game.guesses.len();
    assert(gs.take(i as int) =~= gs);
    while i > 0
        invariant
            i <= game.guesses.len(),
            gs == game@.guesses,
            sol == game@.solution,
            sol_len == sol.len(),
            key_state_spec(gs, sol, key) == key_state_spec(gs.take(i as int), sol, key),
        decreases i,
    {
        i -= 1;
        let guess = &game.guesses[i];
        assert(guess@ == gs[i as int]);
        let ghost g = gs[i as int];
        let w = guess.to_string();
        let hs = guess.hints(game.solution.as_str());
        assert(hs@.len() == vstd::math::min(g.len() as int, sol.len() as int));
        let mut j: usize = hs.len();
        while j > 0
            invariant
                j <= hs@.len(),
                i < gs.len(),
                g == gs[i as int],
                gs == game@.guesses,
                sol == game@.solution,
                key_state_spec(gs, sol, key) == key_state_spec(gs.take(i + 1), sol, key),
                w@ == g,
                hs@ == hints_spec(g, sol),
                hs@.len() <= w@.len(),
                last_hint_at(g, sol, key, hs@.len() as int) == last_hint_at(
                    g,
                    sol,
                    key,
                    j as int,
                ),
            decreases j,
        {
            j -= 1;
            if w.as_str().get_char(j) == key {
                assert(last_hint_at(g, sol, key, j + 1) == Some(hint_at(g, sol, j as int)));
                assert(hs@[j as int] == hint_at(g, sol, j as int));
                let r = match hs[j] {
                    Hint::Correct => KeyState::Correct,
                    Hint::Incorrect => KeyState::Incorrect,
                    Hint::Misplaced => KeyState::Misplaced,
                };
                proof {
                    assert(r == key_state_of_hint(hint_at(g, sol, j as int)));
                    assert(gs.take(i + 1).last() == g);
                    assert(key_state_spec(gs.take(i + 1), sol, key) == key_state_of_hint(
                        hint_at(g, sol, j as int),
                    ));
                    assert(key_state_spec(gs, sol, key) == key_state_spec(
                        gs.take(i + 1),
                        sol,
                        key,
                    ));
                }
                return r;
            }
        }
        proof {
            assert(last_hint_at(g, sol, key, hs@.len() as int) is None);
            assert(gs.take(i + 1).last() == g);
            assert(gs.take(i + 1).drop_last() =~= gs.take(i as int));
            assert(key_state_spec(gs.take(i + 1), sol, key) == key_state_spec(
                gs.take(i as int),
                sol,
                key,
            ));
        }
    }
    assert(gs.take(0) =~= Seq::<Seq<char>>::empty());
    KeyState::Unused
}

} // verus!
