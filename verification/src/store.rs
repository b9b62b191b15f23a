//! The persistence store: one record per puzzle id, kept sorted ascending
//! by id, enumerable as the full history. Writing is always a full
//! overwrite of the record under that id, never a merge.

use vstd::prelude::*;

use crate::game::{computed_state, game_wf, recomputed, Game, GameView};

verus! {

/// The mathematical contents of a vector of games.
pub open spec fn game_views(s: Seq<Game>) -> Seq<GameView> {
    s.map_values(|g: Game| g@)
}

/// The records after writing `g`: the entry with `g.id` is replaced when
/// present, otherwise `g` is inserted at its place in id order.
pub open spec fn spec_put(s: Seq<GameView>, g: GameView) -> Seq<GameView>
    decreases s.len(),
{
    if s.len() == 0 {
        seq![g]
    } else if g.id < s[0].id {
        seq![g] + s
    } else if g.id == s[0].id {
        seq![g] + s.drop_first()
    } else {
        seq![s[0]] + spec_put(s.drop_first(), g)
    }
}

/// The record stored under `id`, if any: the first entry carrying that id.
pub open spec fn spec_get(s: Seq<GameView>, id: u32) -> Option<GameView>
    decreases s.len(),
{
    if s.len() == 0 {
        None
    } else if s[0].id == id {
        Some(s[0])
    } else {
        spec_get(s.drop_first(), id)
    }
}

/// What every reachable store satisfies: records sorted strictly ascending
/// by id, no record under the sentinel id 0, and every record well formed.
pub open spec fn store_inv(s: Seq<GameView>) -> bool {
    &&& forall|i: int, j: int|
        #![trigger s[i].id, s[j].id]
        0 <= i < j < s.len() ==> s[i].id < s[j].id
    &&& forall|i: int| 0 <= i < s.len() ==> (#[trigger] s[i]).id != 0
    &&& forall|i: int| 0 <= i < s.len() ==> game_wf(#[trigger] s[i])
}

/// Looking up an id after a write finds exactly the written record for that
/// id and leaves every other id's answer unchanged.
pub proof fn lemma_get_put(s: Seq<GameView>, g: GameView, id: u32)
    ensures
        spec_get(spec_put(s, g), id) == if id == g.id {
            Some(g)
        } else {
            spec_get(s, id)
        },
    decreases s.len(),
{
    reveal_with_fuel(spec_get, 3);
    if s.len() == 0 {
        assert(spec_put(s, g)[0] == g);
        assert(spec_put(s, g).drop_first() =~= Seq::<GameView>::empty());
    } else if g.id < s[0].id {
        assert(spec_put(s, g)[0] == g);
        assert(spec_put(s, g).drop_first() =~= s);
    } else if g.id == s[0].id {
        assert(spec_put(s, g)[0] == g);
        assert(spec_put(s, g).drop_first() =~= s.drop_first());
    } else {
        lemma_get_put(s.drop_first(), g, id);
        assert(spec_put(s, g)[0] == s[0]);
        assert(spec_put(s, g).drop_first() =~= spec_put(s.drop_first(), g));
    }
}

/// Writing the same record twice is the same as writing it once.
pub proof fn lemma_put_twice(s: Seq<GameView>, g: GameView)
    ensures
        spec_put(spec_put(s, g), g) == spec_put(s, g),
    decreases s.len(),
{
    if s.len() == 0 {
        assert(spec_put(spec_put(s, g), g) =~= spec_put(s, g));
    } else if g.id < s[0].id {
        assert(spec_put(spec_put(s, g), g) =~= spec_put(s, g));
    } else if g.id == s[0].id {
        assert(spec_put(spec_put(s, g), g) =~= spec_put(s, g));
    } else {
        lemma_put_twice(s.drop_first(), g);
        let r = spec_put(s, g);
        assert(r[0] == s[0]);
        assert(r.drop_first() =~= spec_put(s.drop_first(), g));
        assert(spec_put(r, g) =~= seq![s[0]] + spec_put(spec_put(s.drop_first(), g), g));
        assert(spec_put(spec_put(s, g), g) =~= spec_put(s, g));
    }
}

/// Every record after a write is either the written one or one that was
/// already stored.
proof fn lemma_put_membership(s: Seq<GameView>, g: GameView)
    ensures
        forall|i: int|
            0 <= i < spec_put(s, g).len() ==> (#[trigger] spec_put(s, g)[i] == g || s.contains(
                spec_put(s, g)[i],
            )),
    decreases s.len(),
{
    if s.len() == 0 {
    } else if g.id < s[0].id {
    } else if g.id == s[0].id {
        assert forall|i: int| 0 <= i < spec_put(s, g).len() implies (#[trigger] spec_put(s, g)[i]
            == g || s.contains(spec_put(s, g)[i])) by {
            if i > 0 {
                assert(spec_put(s, g)[i] == s[i]);
            }
        }
    } else {
        lemma_put_membership(s.drop_first(), g);
        assert forall|i: int| 0 <= i < spec_put(s, g).len() implies (#[trigger] spec_put(s, g)[i]
            == g || s.contains(spec_put(s, g)[i])) by {
            if i > 0 {
                let t = spec_put(s.drop_first(), g)[i - 1];
                assert(spec_put(s, g)[i] == t);
                if t != g {
                    let k = choose|k: int|
                        0 <= k < s.drop_first().len() && s.drop_first()[k] == t;
                    assert(s[k + 1] == t);
                }
            }
        }
    }
}

/// A write preserves the store invariant when the written record is well
/// formed and carries a real (non-sentinel) id.
pub proof fn lemma_put_preserves_inv(s: Seq<GameView>, g: GameView)
    requires
        store_inv(s),
        g.id != 0,
        game_wf(g),
    ensures
        store_inv(spec_put(s, g)),
    decreases s.len(),
{
    lemma_put_membership(s, g);
    if s.len() == 0 {
    } else if g.id < s[0].id {
    } else if g.id == s[0].id {
        assert forall|i: int, j: int|
            #![trigger spec_put(s, g)[i].id, spec_put(s, g)[j].id]
            0 <= i < j < spec_put(s, g).len() implies spec_put(s, g)[i].id < spec_put(
            s,
            g,
        )[j].id by {
            if i > 0 {
                assert(spec_put(s, g)[i] == s[i]);
            }
            assert(spec_put(s, g)[j] == s[j]);
        }
    } else {
        assert forall|i: int| 0 <= i < s.drop_first().len() implies (
        #[trigger] s.drop_first()[i]).id > s[0].id by {
            assert(s.drop_first()[i] == s[i + 1]);
        }
        lemma_put_preserves_inv(s.drop_first(), g);
        lemma_put_membership(s.drop_first(), g);
        let r = spec_put(s, g);
        assert(r[0] == s[0]);
        assert forall|i: int, j: int|
            #![trigger r[i].id, r[j].id]
            0 <= i < j < r.len() implies r[i].id < r[j].id by {
            let tail = spec_put(s.drop_first(), g);
            if i == 0 {
                assert(r[j] == tail[j - 1]);
                if tail[j - 1] == g {
                } else {
                    let k = choose|k: int|
                        0 <= k < s.drop_first().len() && s.drop_first()[k] == tail[j - 1];
                }
            } else {
                assert(r[i] == tail[i - 1]);
                assert(r[j] == tail[j - 1]);
            }
        }
        assert forall|i: int| 0 <= i < r.len() implies (#[trigger] r[i]).id != 0 by {
            if i > 0 {
                assert(r[i] == spec_put(s.drop_first(), g)[i - 1]);
            }
        }
        assert forall|i: int| 0 <= i < r.len() implies game_wf(#[trigger] r[i]) by {
            if i > 0 {
                assert(r[i] == spec_put(s.drop_first(), g)[i - 1]);
            }
        }
    }
}

/// Where the write lands: with everything before `i` below the new id and
/// position `i` (if any) at or above it, the write replaces position `i`
/// on an id match and inserts before it otherwise.
proof fn lemma_put_at_index(s: Seq<GameView>, g: GameView, i: int)
    requires
        0 <= i <= s.len(),
        forall|j: int| 0 <= j < i ==> (#[trigger] s[j]).id < g.id,
        i < s.len() ==> s[i].id >= g.id,
    ensures
        spec_put(s, g) == if i < s.len() && s[i].id == g.id {
            s.update(i, g)
        } else {
            s.insert(i, g)
        },
    decreases i,
{
    if i == 0 {
        if s.len() == 0 {
            assert(spec_put(s, g) =~= s.insert(0, g));
        } else if s[0].id == g.id {
            assert(spec_put(s, g) =~= s.update(0, g));
        } else {
            assert(spec_put(s, g) =~= s.insert(0, g));
        }
    } else {
        assert(s[0].id < g.id);
        assert forall|j: int| 0 <= j < i - 1 implies (#[trigger] s.drop_first()[j]).id
            < g.id by {
            assert(s.drop_first()[j] == s[j + 1]);
        }
        assert(i - 1 < s.drop_first().len() ==> s.drop_first()[i - 1].id >= g.id);
        lemma_put_at_index(s.drop_first(), g, i - 1);
        if i < s.len() && s[i].id == g.id {
            assert(s.drop_first()[i - 1] == s[i]);
            assert(spec_put(s, g) =~= s.update(i, g));
        } else {
            assert(spec_put(s, g) =~= s.insert(i, g));
        }
    }
}

/// A stored record carries the id it is stored under and is well formed.
pub proof fn lemma_get_inv(s: Seq<GameView>, id: u32)
    requires
        store_inv(s),
        spec_get(s, id) is Some,
    ensures
        spec_get(s, id)->Some_0.id == id,
        game_wf(spec_get(s, id)->Some_0),
        id != 0,
    decreases s.len(),
{
    if s.len() > 0 && s[0].id != id {
        assert forall|i: int, j: int|
            #![trigger s.drop_first()[i].id, s.drop_first()[j].id]
            0 <= i < j < s.drop_first().len() implies s.drop_first()[i].id < s.drop_first()[
            j
        ].id by {
            assert(s.drop_first()[i] == s[i + 1]);
            assert(s.drop_first()[j] == s[j + 1]);
        }
        assert forall|i: int| 0 <= i < s.drop_first().len() implies (
        #[trigger] s.drop_first()[i]).id != 0 && game_wf(s.drop_first()[i]) by {
            assert(s.drop_first()[i] == s[i + 1]);
        }
        lemma_get_inv(s.drop_first(), id);
    }
}

/// Saving a game under its id and then loading that id yields the very
/// game that was saved, whatever the store held before.
pub proof fn lemma_save_load_roundtrip(s: Seq<GameView>, g: GameView)
    ensures
        spec_get(spec_put(s, g), g.id) == Some(g),
{
    lemma_get_put(s, g, g.id);
}

/// Recomputing and persisting an already-consistent game a second time
/// changes neither the game nor the stored records.
pub proof fn lemma_update_idempotent(s: Seq<GameView>, g: GameView)
    requires
        g.state == computed_state(g.guesses, g.solution),
    ensures
        recomputed(g) == g,
        spec_put(spec_put(s, recomputed(g)), recomputed(g)) == spec_put(s, recomputed(g)),
{
    assert(recomputed(g) =~= g);
    lemma_put_twice(s, g);
}

/// Device-local key-value storage of games, one record per puzzle id.
pub struct Store {
    games: Vec<Game>,
}

impl View for Store {
    type V = Seq<GameView>;

    closed spec fn view(&self) -> Seq<GameView> {
        game_views(self.games@)
    }
}

impl Store {
    pub open spec fn wf(&self) -> bool {
        store_inv(self@)
    }

    /// An empty store.
    pub fn new() -> (r: Store)
        ensures
            r@ == Seq::<GameView>::empty(),
            r.wf(),
    {
        let r = Store { games: Vec::new() };
        assert(r@ =~= Seq::<GameView>::empty());
        r
    }

    /// Writes the record under `game.id`, overwriting any prior record.
    pub fn put(&mut self, game: Game)
        requires
            old(self).wf(),
            game@.id != 0,
            game_wf(game@),
        ensures
            final(self).wf(),
            final(self)@ == spec_put(old(self)@, game@),
    {
        let ghost s0 = self@;
        let mut i: usize = 0;
        while i < self.games.len() && self.games[i].id < game.id
            invariant
                *self == *old(self),
                i <= self.games.len(),
                forall|j: int| 0 <= j < i ==> (#[trigger] s0[j]).id < game@.id,
                s0 == self@,
            decreases self.games.len() - i,
        {
            assert(s0[i as int].id == self.games[i as int]@.id);
            i += 1;
        }
        proof {
            if i < self.games@.len() {
                assert(s0[i as int].id == self.games[i as int]@.id);
            }
            lemma_put_at_index(s0, game@, i as int);
            lemma_put_preserves_inv(s0, game@);
        }
        if i < self.games.len() && self.games[i].id == game.id {
            self.games.set(i, game);
            assert(self@ =~= s0.update(i as int, game@));
        } else {
            self.games.insert(i, game);
            assert(self@ =~= s0.insert(i as int, game@));
        }
    }

    /// Reads the record under `id`, or `None` when no game was ever saved
    /// under that id.
    pub fn get(&self, id: u32) -> (r: Option<Game>)
        requires
            self.wf(),
        ensures
            match r {
                Some(g) => spec_get(self@, id) == Some(g@) && game_wf(g@) && g@.id == id,
                None => spec_get(self@, id) is None,
            },
    {
        let mut i: usize = 0;
        while i < self.games.len()
            invariant
                self.wf(),
                i <= self.games.len(),
                forall|j: int| 0 <= j < i ==> (#[trigger] self@[j]).id != id,
            decreases self.games.len() - i,
        {
            if self.games[i].id == id {
                let g = self.games[i].clone();
                proof {
                    lemma_get_prefix(self@, id, i as int);
                    lemma_get_inv(self@, id);
                }
                return Some(g);
            }
            assert(self@[i as int].id == self.games[i as int]@.id);
            i += 1;
        }
        proof {
            lemma_get_none(self@, id);
        }
        None
    }

    /// Every stored game, ascending by id.
    pub fn load_all(&self) -> (r: Vec<Game>)
        ensures
            game_views(r@) == self@,
    {
        let mut r: Vec<Game> = Vec::new();
        let mut i: usize = 0;
        while i < self.games.len()
            invariant
                i <= self.games.len(),
                r@.len() == i,
                forall|j: int| 0 <= j < i ==> (#[trigger] r@[j])@ == self@[j],
            decreases self.games.len() - i,
        {
            let c = self.games[i].clone();
            assert(c@ == self@[i as int]);
            r.push(c);
            i += 1;
        }
        assert(game_views(r@) =~= self@);
        r
    }

    /// The ids that have a record, ascending.
    pub fn ids(&self) -> (r: Vec<u32>)
        ensures
            r@ == self@.map_values(|g: GameView| g.id),
    {
        let mut r: Vec<u32> = Vec::new();
        let mut i: usize = 0;
        while i < self.games.len()
            invariant
                i <= self.games.len(),
                r@.len() == i,
                forall|j: int| 0 <= j < i ==> r@[j] == (#[trigger] self@[j]).id,
            decreases self.games.len() - i,
        {
            r.push(self.games[i].id);
            assert(self@[i as int].id == self.games[i as int]@.id);
            i += 1;
        }
        assert(r@ =~= self@.map_values(|g: GameView| g.id));
        r
    }
}

/// When position `i` holds `id` and no earlier position does, the lookup
/// answers with position `i`.
proof fn lemma_get_prefix(s: Seq<GameView>, id: u32, i: int)
    requires
        0 <= i < s.len(),
        s[i].id == id,
        forall|j: int| 0 <= j < i ==> (#[trigger] s[j]).id != id,
    ensures
        spec_get(s, id) == Some(s[i]),
    decreases i,
{
    if i > 0 {
        assert forall|j: int| 0 <= j < i - 1 implies (#[trigger] s.drop_first()[j]).id != id by {
            assert(s.drop_first()[j] == s[j + 1]);
        }
        assert(s.drop_first()[i - 1] == s[i]);
        lemma_get_prefix(s.drop_first(), id, i - 1);
    }
}

/// When no position holds `id`, the lookup answers `None`.
proof fn lemma_get_none(s: Seq<GameView>, id: u32)
    requires
        forall|j: int| 0 <= j < s.len() ==> (#[trigger] s[j]).id != id,
    ensures
        spec_get(s, id) is None,
    decreases s.len(),
{
    if s.len() > 0 {
        assert forall|j: int| 0 <= j < s.drop_first().len() implies (
        #[trigger] s.drop_first()[j]).id != id by {
            assert(s.drop_first()[j] == s[j + 1]);
        }
        lemma_get_none(s.drop_first(), id);
    }
}

} // verus!
