//! One puzzle attempt in progress: its identity, secret solution, submitted
//! guesses, in-progress input, and the state machine over them.

use vstd::prelude::*;

use crate::hints::{hints_spec, spec_matches, Guess, Hint};
use crate::store::{spec_get, spec_put, Store};

verus! {

/// A game may take at most this many guesses.
pub const MAX_TRIES: usize = 6;

/// Where a game stands: still accepting guesses, solved, or out of tries.
#[derive(Clone, Copy, Debug, PartialEq, Eq, Structural)]
pub enum State {
    Running,
    Win,
    Loss,
}

impl State {
    pub fn to_css_class(&self) -> (r: String)
        ensures
            *self == State::Running ==> r@ == "running"@,
            *self == State::Win ==> r@ == "win"@,
            *self == State::Loss ==> r@ == "loss"@,
    {
        match self {
            State::Running => String::from_str("running"),
            State::Win => String::from_str("win"),
            State::Loss => String::from_str("loss"),
        }
    }
}

/// The mathematical value of a [`Game`]: every field as a plain sequence.
#[verifier::ext_equal]
pub ghost struct GameView {
    pub id: u32,
    pub solution: Seq<char>,
    pub guesses: Seq<Seq<char>>,
    pub current: Seq<char>,
    pub state: State,
}

/// The words of a sequence of guesses.
pub open spec fn guess_views(s: Seq<Guess>) -> Seq<Seq<char>> {
    s.map_values(|g: Guess| g@)
}

/// The state a game with these guesses and this solution must be in:
/// `Win` exactly when the last guess matches the solution, otherwise `Loss`
/// exactly when all tries are used up, otherwise `Running`.
pub open spec fn computed_state(guesses: Seq<Seq<char>>, solution: Seq<char>) -> State {
    if guesses.len() == 0 {
        State::Running
    } else if spec_matches(guesses.last(), solution) {
        State::Win
    } else if guesses.len() >= MAX_TRIES {
        State::Loss
    } else {
        State::Running
    }
}

/// The same game with its state freshly derived from its guesses.
pub open spec fn recomputed(g: GameView) -> GameView {
    GameView { state: computed_state(g.guesses, g.solution), ..g }
}

/// A well-formed game: within the try budget and with a state that agrees
/// with its guesses. Every game this library hands out satisfies it.
pub open spec fn game_wf(g: GameView) -> bool {
    &&& g.guesses.len() <= MAX_TRIES
    &&& g.state == computed_state(g.guesses, g.solution)
}

/// One daily puzzle attempt. `id` 0 is the sentinel of a game not yet bound
/// to a puzzle; such a game is never persisted.
#[derive(Debug, PartialEq)]
pub struct Game {
    pub id: u32,
    pub solution: String,
    pub guesses: Vec<Guess>,
    pub current: Guess,
    pub state: State,
}

impl View for Game {
    type V = GameView;

    open spec fn view(&self) -> GameView {
        GameView {
            id: self.id,
            solution: self.solution@,
            guesses: guess_views(self.guesses@),
            current: self.current@,
            state: self.state,
        }
    }
}

impl Clone for Game {
    fn clone(&self) -> (r: Self)
        ensures
            r@ == self@,
    {
        let r = Game {
            id: self.id,
            solution: self.solution.clone(),
            guesses: self.guesses.clone(),
            current: self.current.clone(),
            state: self.state,
        };
        assert(r.guesses@ =~= self.guesses@);
        assert(r@ =~= self@);
        r
    }
}

impl Default for Game {
    /// The unbound game: sentinel id, empty solution, no guesses.
    fn default() -> (r: Self)
        ensures
            r@ == (GameView {
                id: 0,
                solution: Seq::<char>::empty(),
                guesses: Seq::<Seq<char>>::empty(),
                current: Seq::<char>::empty(),
                state: State::Running,
            }),
            game_wf(r@),
    {
        let r = Game {
            id: 0,
            solution: String::new(),
            guesses: Vec::new(),
            current: Guess::default(),
            state: State::Running,
        };
        assert(guess_views(r.guesses@) =~= Seq::<Seq<char>>::empty());
        r
    }
}

impl Game {
    /// A fresh, unpersisted game for the given solution.
    pub fn new(solution: &str) -> (r: Self)
        ensures
            r@ == (GameView {
                id: 0,
                solution: solution@,
                guesses: Seq::<Seq<char>>::empty(),
                current: Seq::<char>::empty(),
                state: State::Running,
            }),
            game_wf(r@),
    {
        let r = Game {
            id: 0,
            solution: String::from_str(solution),
            guesses: Vec::new(),
            current: Guess::default(),
            state: State::Running,
        };
        assert(guess_views(r.guesses@) =~= Seq::<Seq<char>>::empty());
        r
    }

    /// How many guesses were submitted.
    pub fn tries(&self) -> (r: usize)
        ensures
            r == self@.guesses.len(),
    {
        self.guesses.len()
    }

    /// The state this game's guesses dictate, freshly derived.
    fn compute_state(&self) -> (r: State)
        ensures
            r == computed_state(self@.guesses, self@.solution),
    {
        if self.guesses.len() == 0 {
            State::Running
        } else {
            let last = &self.guesses[self.guesses.len() - 1];
            assert(last@ == self@.guesses.last());
            if last.matches(self.solution.as_str()) {
                State::Win
            } else if self.guesses.len() >= MAX_TRIES {
                State::Loss
            } else {
                State::Running
            }
        }
    }

    /// Whether this game's state agrees with its guesses and it is within
    /// the try budget. Useful to validate records read back from storage.
    pub fn is_consistent(&self) -> (r: bool)
        ensures
            r == game_wf(self@),
    {
        self.guesses.len() <= MAX_TRIES && self.state == self.compute_state()
    }

    /// Looks up the record stored under this game's id: a stored record
    /// replaces this game entirely — even its solution — and with none
    /// stored the game comes back unchanged.
    pub fn restore(self, store: &Store) -> (r: Game)
        requires
            store.wf(),
        ensures
            r@ == match spec_get(store@, self@.id) {
                Some(g) => g,
                None => self@,
            },
            spec_get(store@, self@.id) is Some ==> game_wf(r@) && r@.id == self@.id,
    {
        match store.get(self.id) {
            Some(g) => g,
            None => self,
        }
    }

    /// Writes this game to the store under its id. A game still carrying
    /// the sentinel id is never persisted.
    pub fn save(&self, store: &mut Store)
        requires
            old(store).wf(),
            game_wf(self@),
        ensures
            final(store).wf(),
            self@.id != 0 ==> final(store)@ == spec_put(old(store)@, self@),
            self@.id == 0 ==> final(store)@ == old(store)@,
    {
        if self.id == 0 {
            return;
        }
        store.put(self.clone());
    }

    /// Recomputes this game's state from its guesses and persists the
    /// result, as every transition does.
    pub fn update(self, store: &mut Store) -> (r: Game)
        requires
            old(store).wf(),
            self@.guesses.len() <= MAX_TRIES,
        ensures
            r@ == recomputed(self@),
            game_wf(r@),
            final(store).wf(),
            self@.id != 0 ==> final(store)@ == spec_put(old(store)@, recomputed(self@)),
            self@.id == 0 ==> final(store)@ == old(store)@,
    {
        let state = self.compute_state();
        let ghost g0 = self@;
        let mut game = self;
        game.state = state;
        assert(game@ =~= recomputed(g0));
        game.save(store);
        game
    }
}

/// The block glyph a hint is rendered as in the shareable summary.
pub open spec fn glyph_of(h: Hint) -> char {
    match h {
        Hint::Correct => '🟩',
        Hint::Incorrect => '⬛',
        Hint::Misplaced => '🟧',
    }
}

/// A hint row rendered as glyphs.
pub open spec fn glyph_row(hs: Seq<Hint>) -> Seq<char> {
    hs.map_values(|h: Hint| glyph_of(h))
}

/// One guess rendered as its glyph row plus a line break.
pub open spec fn share_row(g: Seq<char>, solution: Seq<char>) -> Seq<char> {
    glyph_row(hints_spec(g, solution)).push('\n')
}

/// All guesses rendered as glyph rows, in submission order.
pub open spec fn share_rows(guesses: Seq<Seq<char>>, solution: Seq<char>) -> Seq<char>
    decreases guesses.len(),
{
    if guesses.len() == 0 {
        Seq::<char>::empty()
    } else {
        share_rows(guesses.drop_last(), solution) + share_row(guesses.last(), solution)
    }
}

/// The decimal digit of a try count within the budget.
pub open spec fn digit_char(n: nat) -> char {
    if n == 0 {
        '0'
    } else if n == 1 {
        '1'
    } else if n == 2 {
        '2'
    } else if n == 3 {
        '3'
    } else if n == 4 {
        '4'
    } else if n == 5 {
        '5'
    } else {
        '6'
    }
}

/// The whole shareable summary: a header with the try count, then one
/// glyph row per guess.
pub open spec fn share_text(g: GameView) -> Seq<char> {
    "Nerdle "@ + seq![digit_char(g.guesses.len())] + "/6\n\n"@ + share_rows(g.guesses, g.solution)
}

impl Game {
    /// Renders this game as a human-readable summary for the clipboard:
    /// `Nerdle <tries>/6`, a blank line, then each guess as a row of
    /// glyphs — green for correct, black for incorrect, orange for
    /// misplaced — each row ended by a line break.
    #[verifier::loop_isolation(false)]
    pub fn to_share(&self) -> (r: String)
        requires
            self@.guesses.len() <= MAX_TRIES,
        ensures
            r@ == share_text(self@),
    {
        proof {
            reveal_strlit("Nerdle ");
            reveal_strlit("/6\n\n");
            reveal_strlit("0");
            reveal_strlit("1");
            reveal_strlit("2");
            reveal_strlit("3");
            reveal_strlit("4");
            reveal_strlit("5");
            reveal_strlit("6");
            reveal_strlit("🟩");
            reveal_strlit("⬛");
            reveal_strlit("🟧");
            reveal_strlit("\n");
        }
        let mut text = String::from_str("Nerdle ");
        let digit: &str = match self.guesses.len() {
            0 => "0",
            1 => "1",
            2 => "2",
            3 => "3",
            4 => "4",
            5 => "5",
            _ => "6",
        };
        assert(digit@ =~= seq![digit_char(self@.guesses.len())]);
        text.append(digit);
        text.append("/6\n\n");
        let ghost header = "Nerdle "@ + seq![digit_char(self@.guesses.len())] + "/6\n\n"@;
        assert(text@ =~= header);
        let mut i: usize = 0;
        while i < self.guesses.len()
            invariant
                i <= self.guesses.len(),
                text@ == header + share_rows(self@.guesses.take(i as int), self@.solution),
            decreases self.guesses.len() - i,
        {
            let hs = self.guesses[i].hints(self.solution.as_str());
            assert(self.guesses[i as int]@ == self@.guesses[i as int]);
            let ghost row_start = text@;
            let mut j: usize = 0;
            while j < hs.len()
                invariant
                    j <= hs.len(),
                    text@ == row_start + glyph_row(hs@.take(j as int)),
                decreases hs.len() - j,
            {
                match hs[j] {
                    Hint::Correct => text.append("🟩"),
                    Hint::Incorrect => text.append("⬛"),
                    Hint::Misplaced => text.append("🟧"),
                }
                assert(text@ =~= row_start + glyph_row(hs@.take(j + 1)));
                j += 1;
            }
            text.append("\n");
            proof {
                assert(hs@.take(hs@.len() as int) =~= hs@);
                assert(text@ =~= row_start + share_row(self@.guesses[i as int], self@.solution));
                let gs1 = self@.guesses.take(i + 1);
                assert(gs1.drop_last() =~= self@.guesses.take(i as int));
                assert(gs1.last() == self@.guesses[i as int]);
                assert(text@ =~= header + share_rows(gs1, self@.solution));
            }
            i += 1;
        }
        proof {
            assert(self@.guesses.take(self@.guesses.len() as int) =~= self@.guesses);
        }
        text
    }
}

/// One transition of the game state machine.
#[derive(Clone, Debug, PartialEq)]
pub enum GameAction {
    /// Rebinds the game to a puzzle id and its solution, then restores any
    /// record already stored under that id.
    SetSolution(u32, String),
    /// Replaces the in-progress guess.
    SetCurrent(String),
    /// Submits the in-progress guess and clears it.
    AddGuess,
}

/// The game an action turns `g` into, before its state is recomputed.
/// `SetSolution` consults the stored records: a record under the new id
/// replaces the game wholesale.
pub open spec fn apply_action(g: GameView, records: Seq<GameView>, a: GameAction) -> GameView {
    match a {
        GameAction::SetSolution(id, solution) => {
            match spec_get(records, id) {
                Some(stored) => stored,
                None => GameView { id, solution: solution@, ..g },
            }
        },
        GameAction::SetCurrent(current) => GameView { current: current@, ..g },
        GameAction::AddGuess => GameView {
            guesses: g.guesses.push(g.current),
            current: Seq::<char>::empty(),
            ..g
        },
    }
}

impl Game {
    /// Applies one action and then, like every transition, recomputes the
    /// state and persists the outcome. Submission in a terminal state is
    /// not the model's concern: callers gate `AddGuess` on `Running`.
    pub fn reduce(self, action: GameAction, store: &mut Store) -> (r: Game)
        requires
            old(store).wf(),
            game_wf(self@),
            action is AddGuess ==> self@.state == State::Running,
        ensures
            r@ == recomputed(apply_action(self@, old(store)@, action)),
            game_wf(r@),
            final(store).wf(),
            r@.id != 0 ==> final(store)@ == spec_put(old(store)@, r@),
            r@.id == 0 ==> final(store)@ == old(store)@,
    {
        let ghost g0 = self@;
        let ghost s0 = store@;
        let next = match action {
            GameAction::SetSolution(id, solution) => {
                let g = Game {
                    id,
                    solution,
                    guesses: self.guesses,
                    current: self.current,
                    state: self.state,
                };
                g.restore(store)
            },
            GameAction::SetCurrent(current) => {
                Game {
                    id: self.id,
                    solution: self.solution,
                    guesses: self.guesses,
                    current: Guess::new(current),
                    state: self.state,
                }
            },
            GameAction::AddGuess => {
                let mut guesses = self.guesses;
                let ghost gs0 = guesses@;
                guesses.push(self.current);
                assert(guess_views(guesses@) =~= guess_views(gs0).push(g0.current));
                Game {
                    id: self.id,
                    solution: self.solution,
                    guesses,
                    current: Guess::default(),
                    state: self.state,
                }
            },
        };
        assert(next@ =~= apply_action(g0, s0, action));
        next.update(store)
    }
}

/// A game whose state agrees with its guesses is in `Win` exactly when its
/// last guess matches the solution up to case; with no guesses it cannot
/// be in `Win`.
pub proof fn lemma_win_iff(g: GameView)
    requires
        g.state == computed_state(g.guesses, g.solution),
    ensures
        g.state == State::Win <==> (g.guesses.len() > 0 && spec_matches(
            g.guesses.last(),
            g.solution,
        )),
{
}

/// A game whose state agrees with its guesses and respects the try budget
/// is in `Loss` exactly when it is not in `Win` and all tries are used.
pub proof fn lemma_loss_iff(g: GameView)
    requires
        game_wf(g),
    ensures
        g.state == State::Loss <==> (g.state != State::Win && g.guesses.len() == MAX_TRIES),
{
}

} // verus!
