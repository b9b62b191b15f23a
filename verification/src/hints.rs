//! Per-letter hints for a guess held against a solution word.
//!
//! Comparison is case-insensitive over ASCII letters; the word list of this
//! game is plain ASCII, so no other folding is needed.

use vstd::prelude::*;

verus! {

/// Correctness of one guessed letter at one position.
#[derive(Clone, Copy, Debug, PartialEq, Eq, Structural)]
pub enum Hint {
    Correct,
    Incorrect,
    Misplaced,
}

impl Hint {
    pub fn to_css_class(&self) -> (r: String)
        ensures
            *self == Hint::Correct ==> r@ == "correct"@,
            *self == Hint::Incorrect ==> r@ == "incorrect"@,
            *self == Hint::Misplaced ==> r@ == "misplaced"@,
    {
        match self {
            Hint::Correct => String::from_str("correct"),
            Hint::Incorrect => String::from_str("incorrect"),
            Hint::Misplaced => String::from_str("misplaced"),
        }
    }
}

/// ASCII uppercase folding of one character.
pub open spec fn upcase_char(c: char) -> char {
    if 'a' <= c && c <= 'z' {
        ((c as u32) - 32) as char
    } else {
        c
    }
}

/// ASCII uppercase folding of a whole word.
pub open spec fn upcase_seq(s: Seq<char>) -> Seq<char> {
    s.map_values(|c: char| upcase_char(c))
}

/// Uppercases an ASCII letter and leaves every other character alone.
pub fn upcase(c: char) -> (r: char)
    ensures
        r == upcase_char(c),
{
    if 'a' <= c && c <= 'z' {
        (((c as u32) - 32) as u8) as char
    } else {
        c
    }
}

/// Whether the solution contains the (already folded) character anywhere.
pub open spec fn solution_has(sol: Seq<char>, c: char) -> bool {
    upcase_seq(sol).contains(c)
}

/// The hint earned at position `i`: `Correct` on a positional match,
/// otherwise `Misplaced` when the letter occurs anywhere in the solution,
/// otherwise `Incorrect`.
pub open spec fn hint_at(g: Seq<char>, s: Seq<char>, i: int) -> Hint {
    if upcase_char(g[i]) == upcase_char(s[i]) {
        Hint::Correct
    } else if solution_has(s, upcase_char(g[i])) {
        Hint::Misplaced
    } else {
        Hint::Incorrect
    }
}

/// The whole hint row: guess and solution are zipped positionally, so the
/// row is as long as the shorter of the two.
pub open spec fn hints_spec(g: Seq<char>, s: Seq<char>) -> Seq<Hint> {
    Seq::new(vstd::math::min(g.len() as int, s.len() as int) as nat, |i: int| hint_at(g, s, i))
}

/// Two words are the same up to ASCII case.
pub open spec fn spec_matches(g: Seq<char>, s: Seq<char>) -> bool {
    upcase_seq(g) == upcase_seq(s)
}

/// One submitted (or in-progress) guess word.
#[derive(Debug, PartialEq)]
pub struct Guess(String);

impl View for Guess {
    type V = Seq<char>;

    closed spec fn view(&self) -> Seq<char> {
        self.0@
    }
}

impl Clone for Guess {
    fn clone(&self) -> (r: Self)
        ensures
            r == *self,
    {
        Guess(self.0.clone())
    }
}

impl Default for Guess {
    /// The empty guess.
    fn default() -> (r: Self)
        ensures
            r@ == Seq::<char>::empty(),
    {
        Guess(String::new())
    }
}

impl Guess {
    pub fn new(value: String) -> (r: Guess)
        ensures
            r@ == value@,
    {
        Guess(value)
    }

    pub fn to_string(&self) -> (r: String)
        ensures
            r@ == self@,
    {
        self.0.clone()
    }

    /// Whether this guess equals the solution up to ASCII case.
    pub fn matches(&self, solution: &str) -> (r: bool)
        ensures
            r == spec_matches(self@, solution@),
    {
        let n = self.0.as_str().unicode_len();
        let m = solution.unicode_len();
        if n != m {
            assert(upcase_seq(self@).len() != upcase_seq(solution@).len());
            return false;
        }
        let mut i: usize = 0;
        while i < n
            invariant
                n == self@.len() == solution@.len(),
                i <= n,
                forall|j: int| 0 <= j < i ==> upcase_char(self@[j]) == upcase_char(solution@[j]),
            decreases n - i,
        {
            let a = upcase(self.0.as_str().get_char(i));
            let b = upcase(solution.get_char(i));
            if a != b {
                assert(upcase_seq(self@)[i as int] != upcase_seq(solution@)[i as int]);
                return false;
            }
            i += 1;
        }
        assert(upcase_seq(self@) =~= upcase_seq(solution@));
        true
    }

    /// Scores this guess against the solution, one hint per zipped position.
    ///
    /// A letter repeated in the guess earns `Misplaced` at each occurrence
    /// that is not a positional match, even when the solution holds the
    /// letter only once: letter counts are deliberately not deduplicated.
    pub fn hints(&self, solution: &str) -> (r: Vec<Hint>)
        ensures
            r@ == hints_spec(self@, solution@),
    {
        let gn = self.0.as_str().unicode_len();
        let sn = solution.unicode_len();
        let n = if gn < sn { gn } else { sn };
        let mut r: Vec<Hint> = Vec::new();
        let mut i: usize = 0;
        while i < n
            invariant
                gn == self@.len(),
                sn == solution@.len(),
                n == vstd::math::min(gn as int, sn as int),
                i <= n,
                r@.len() == i,
                forall|j: int| 0 <= j < i ==> r@[j] == hint_at(self@, solution@, j),
            decreases n - i,
        {
            let a = upcase(self.0.as_str().get_char(i));
            let b = upcase(solution.get_char(i));
            let h = if a == b {
                Hint::Correct
            } else if contains_folded(solution, a) {
                Hint::Misplaced
            } else {
                Hint::Incorrect
            };
            r.push(h);
            i += 1;
        }
        assert(r@ =~= hints_spec(self@, solution@));
        r
    }
}

/// Whether the solution contains the already-folded character `c` anywhere.
fn contains_folded(solution: &str, c: char) -> (r: bool)
    ensures
        r == solution_has(solution@, c),
{
    let n = solution.unicode_len();
    let mut i: usize = 0;
    while i < n
        invariant
            n == solution@.len(),
            i <= n,
            forall|j: int| 0 <= j < i ==> upcase_seq(solution@)[j] != c,
        decreases n - i,
    {
        if upcase(solution.get_char(i)) == c {
            assert(upcase_seq(solution@)[i as int] == c);
            return true;
        }
        i += 1;
    }
    assert(forall|j: int| 0 <= j < upcase_seq(solution@).len() ==> upcase_seq(solution@)[j] != c);
    false
}

/// The rule each hint obeys, spelled out position by position: the hint is
/// `Correct` exactly on a case-insensitive positional match; otherwise it is
/// `Misplaced` exactly when the solution contains the letter anywhere;
/// otherwise it is `Incorrect`.
pub proof fn lemma_hint_rule(g: Seq<char>, s: Seq<char>, i: int)
    requires
        g.len() == s.len(),
        0 <= i < g.len(),
    ensures
        hints_spec(g, s)[i] == Hint::Correct <==> upcase_char(g[i]) == upcase_char(s[i]),
        hints_spec(g, s)[i] != Hint::Correct ==> (hints_spec(g, s)[i] == Hint::Misplaced
            <==> solution_has(s, upcase_char(g[i]))),
        hints_spec(g, s)[i] != Hint::Correct && hints_spec(g, s)[i] != Hint::Misplaced
            ==> hints_spec(g, s)[i] == Hint::Incorrect,
{
}

} // verus!
