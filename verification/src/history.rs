//! Statistics over the stored history: play count, win histogram, current
//! streak and longest streak. The history is derived fresh from the store
//! on demand and never cached across mutations.

use vstd::prelude::*;

use crate::game::{Game, GameView, State, MAX_TRIES};
use crate::store::{game_views, Store};

verus! {

/// How many of these games were played, that is, have at least one guess.
pub open spec fn count_played(s: Seq<GameView>) -> nat
    decreases s.len(),
{
    if s.len() == 0 {
        0
    } else {
        count_played(s.drop_last()) + (if s.last().guesses.len() > 0 {
            1nat
        } else {
            0nat
        })
    }
}

/// How many of these games were won in exactly `t` tries. Lost and
/// abandoned games never count, whatever their try count.
pub open spec fn count_wins_with_tries(s: Seq<GameView>, t: nat) -> nat
    decreases s.len(),
{
    if s.len() == 0 {
        0
    } else {
        count_wins_with_tries(s.drop_last(), t) + (if s.last().state == State::Win
            && s.last().guesses.len() == t {
            1nat
        } else {
            0nat
        })
    }
}

/// The run of games won in a row at the end of the sequence, stopping at
/// the first game from the end that was not won.
pub open spec fn trailing_wins(s: Seq<GameView>) -> nat
    decreases s.len(),
{
    if s.len() == 0 {
        0
    } else if s.last().state == State::Win {
        1 + trailing_wins(s.drop_last())
    } else {
        0
    }
}

/// The longest run of games won in a row anywhere in the sequence: the
/// largest trailing run of any prefix.
pub open spec fn max_streak_of(s: Seq<GameView>) -> nat
    decreases s.len(),
{
    if s.len() == 0 {
        0
    } else {
        vstd::math::max(max_streak_of(s.drop_last()) as int, trailing_wins(s) as int) as nat
    }
}

/// The full stored history, ordered ascending by puzzle id.
#[derive(Debug, PartialEq)]
pub struct History {
    games: Vec<Game>,
}

impl View for History {
    type V = Seq<GameView>;

    closed spec fn view(&self) -> Seq<GameView> {
        game_views(self.games@)
    }
}

impl History {
    /// Every game of the history is within the try budget; a history read
    /// from a store always is.
    pub open spec fn wf(&self) -> bool {
        forall|i: int| 0 <= i < self@.len() ==> (#[trigger] self@[i]).guesses.len() <= MAX_TRIES
    }

    /// Reads the whole history out of the store, ascending by id.
    pub fn new(store: &Store) -> (h: History)
        requires
            store.wf(),
        ensures
            h@ == store@,
            h.wf(),
    {
        let games = store.load_all();
        let h = History { games };
        assert forall|i: int| 0 <= i < h@.len() implies (#[trigger] h@[i]).guesses.len()
            <= MAX_TRIES by {
            assert(crate::game::game_wf(store@[i]));
        }
        h
    }

    /// Number of games played: those with at least one submitted guess.
    pub fn played(&self) -> (r: usize)
        ensures
            r == count_played(self@),
    {
        let mut count: usize = 0;
        let mut i: usize = 0;
        while i < self.games.len()
            invariant
                i <= self.games.len(),
                count <= i,
                count == count_played(self@.take(i as int)),
            decreases self.games.len() - i,
        {
            proof {
                assert(self@.take(i + 1).drop_last() =~= self@.take(i as int));
                assert(self@.take(i + 1).last() == self@[i as int]);
                assert(self.games[i as int]@ == self@[i as int]);
            }
            if self.games[i].tries() > 0 {
                count += 1;
            }
            i += 1;
        }
        assert(self@.take(self.games@.len() as int) =~= self@);
        count
    }

    /// The win histogram: seven buckets, bucket `t` counting the games
    /// won in exactly `t` tries. Bucket 0 stays unused and lost games
    /// appear nowhere.
    pub fn histogram(&self) -> (r: Vec<usize>)
        requires
            self.wf(),
        ensures
            r@.len() == 7,
            forall|t: int| 0 <= t < 7 ==> r@[t] == count_wins_with_tries(self@, t as nat),
    {
        let mut hist: Vec<usize> = Vec::new();
        let mut k: usize = 0;
        while k < 7
            invariant
                k <= 7,
                hist@.len() == k,
                forall|t: int| 0 <= t < k ==> hist@[t] == 0,
            decreases 7 - k,
        {
            hist.push(0);
            k += 1;
        }
        let mut i: usize = 0;
        while i < self.games.len()
            invariant
                self.wf(),
                i <= self.games.len(),
                hist@.len() == 7,
                forall|t: int| 0 <= t < 7 ==> hist@[t] <= i,
                forall|t: int|
                    0 <= t < 7 ==> hist@[t] == count_wins_with_tries(
                        self@.take(i as int),
                        t as nat,
                    ),
            decreases self.games.len() - i,
        {
            let ghost h0 = hist@;
            proof {
                assert(self@.take(i + 1).drop_last() =~= self@.take(i as int));
                assert(self@.take(i + 1).last() == self@[i as int]);
                assert(self.games[i as int]@ == self@[i as int]);
            }
            if self.games[i].state == State::Win {
                let t = self.games[i].tries();
                let v = hist[t];
                hist.set(t, v + 1);
            }
            assert forall|t: int| 0 <= t < 7 implies hist@[t] == count_wins_with_tries(
                self@.take(i + 1),
                t as nat,
            ) by {
                assert(count_wins_with_tries(self@.take(i + 1), t as nat)
                    == count_wins_with_tries(self@.take(i as int), t as nat) + (
                if self@[i as int].state == State::Win && self@[i as int].guesses.len() == t {
                    1nat
                } else {
                    0nat
                }));
            }
            i += 1;
        }
        assert(self@.take(self.games@.len() as int) =~= self@);
        hist
    }

    /// The current streak: how many games in a row were won at the recent
    /// end of the history.
    pub fn streak(&self) -> (r: usize)
        ensures
            r == trailing_wins(self@),
    {
        let n = self.games.len();
        assert(self@.take(n as int) =~= self@);
        let mut count: usize = 0;
        while count < n && self.games[n - 1 - count].state == State::Win
            invariant
                count <= n,
                n == self.games@.len(),
                trailing_wins(self@) == count + trailing_wins(self@.take((n - count) as int)),
            decreases n - count,
        {
            proof {
                let k = (n - count) as int;
                assert(self@.take(k).last() == self@[k - 1]);
                assert(self@.take(k).drop_last() =~= self@.take(k - 1));
            }
            count += 1;
        }
        proof {
            if count < n {
                let k = (n - count) as int;
                assert(self@.take(k).last() == self@[k - 1]);
            }
        }
        count
    }

    /// The longest streak: the longest run of consecutive wins anywhere
    /// in the history; any game not won resets the running count.
    pub fn max_streak(&self) -> (r: usize)
        ensures
            r == max_streak_of(self@),
    {
        let mut best: usize = 0;
        let mut run: usize = 0;
        let mut i: usize = 0;
        while i < self.games.len()
            invariant
                i <= self.games.len(),
                run <= i,
                best <= i,
                run == trailing_wins(self@.take(i as int)),
                best == max_streak_of(self@.take(i as int)),
            decreases self.games.len() - i,
        {
            proof {
                assert(self@.take(i + 1).drop_last() =~= self@.take(i as int));
                assert(self@.take(i + 1).last() == self@[i as int]);
                assert(self.games[i as int]@ == self@[i as int]);
            }
            if self.games[i].state == State::Win {
                run += 1;
                if run > best {
                    best = run;
                }
            } else {
                run = 0;
            }
            i += 1;
        }
        assert(self@.take(self.games@.len() as int) =~= self@);
        best
    }
}

} // verus!
