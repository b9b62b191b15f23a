//! The dictionary of accepted words, built from a newline-delimited word
//! list and membership-tested with the candidate lowercased.

use vstd::prelude::*;

verus! {

/// ASCII lowercase folding of one character.
pub open spec fn downcase_char(c: char) -> char {
    if 'A' <= c && c <= 'Z' {
        ((c as u32) + 32) as char
    } else {
        c
    }
}

/// ASCII lowercase folding of a whole word.
pub open spec fn downcase_seq(s: Seq<char>) -> Seq<char> {
    s.map_values(|c: char| downcase_char(c))
}

/// Lowercases an ASCII letter and leaves every other character alone.
pub fn downcase(c: char) -> (r: char)
    ensures
        r == downcase_char(c),
{
    if 'A' <= c && c <= 'Z' {
        (((c as u32) + 32) as u8) as char
    } else {
        c
    }
}

/// The words of a vector of strings.
pub open spec fn word_views(s: Seq<String>) -> Seq<Seq<char>> {
    s.map_values(|w: String| w@)
}

/// The position of the first line feed at or after `from`, or the length
/// when no line feed follows.
pub open spec fn find_newline(s: Seq<char>, from: int) -> int
    decreases s.len() - from
    when 0 <= from <= s.len()
{
    if from >= s.len() {
        s.len() as int
    } else if s[from] == '\n' {
        from
    } else {
        find_newline(s, from + 1)
    }
}

/// A line with a carriage return left over from a `\r\n` ending dropped.
pub open spec fn strip_cr(line: Seq<char>) -> Seq<char> {
    if line.len() > 0 && line.last() == '\r' {
        line.drop_last()
    } else {
        line
    }
}

/// The lines of a text: split at each line feed, each line stripped of a
/// trailing carriage return, and a final line ending producing no empty
/// last line.
pub open spec fn spec_lines(s: Seq<char>) -> Seq<Seq<char>>
    decreases s.len()
    via spec_lines_decreases
{
    if s.len() == 0 {
        Seq::<Seq<char>>::empty()
    } else {
        let i = find_newline(s, 0);
        if i >= s.len() {
            seq![s]
        } else {
            seq![strip_cr(s.take(i))] + spec_lines(s.skip(i + 1))
        }
    }
}

#[via_fn]
proof fn spec_lines_decreases(s: Seq<char>) {
    if s.len() > 0 {
        lemma_find_newline_bounds(s, 0);
    }
}

proof fn lemma_find_newline_bounds(s: Seq<char>, from: int)
    requires
        0 <= from <= s.len(),
    ensures
        from <= find_newline(s, from) <= s.len(),
        find_newline(s, from) < s.len() ==> s[find_newline(s, from)] == '\n',
    decreases s.len() - from,
{
    if from < s.len() && s[from] != '\n' {
        lemma_find_newline_bounds(s, from + 1);
    }
}

/// With no line feed strictly before `k` and one at `k` (or none at all
/// when `k` is the length), the search from `from` lands on `k`.
proof fn lemma_find_newline_at(s: Seq<char>, from: int, k: int)
    requires
        0 <= from <= k <= s.len(),
        forall|j: int| from <= j < k ==> s[j] != '\n',
        k < s.len() ==> s[k] == '\n',
    ensures
        find_newline(s, from) == k,
    decreases k - from,
{
    if from < k {
        lemma_find_newline_at(s, from + 1, k);
    }
}

/// The set of words a submitted guess must belong to.
#[derive(Debug, PartialEq)]
pub struct Wordlist {
    words: Vec<String>,
}

impl View for Wordlist {
    type V = Seq<Seq<char>>;

    closed spec fn view(&self) -> Seq<Seq<char>> {
        word_views(self.words@)
    }
}

impl Default for Wordlist {
    /// The empty word list, which accepts nothing.
    fn default() -> (r: Self)
        ensures
            r@ == Seq::<Seq<char>>::empty(),
    {
        let r = Wordlist { words: Vec::new() };
        assert(word_views(r.words@) =~= Seq::<Seq<char>>::empty());
        r
    }
}

/// Whether `w` is exactly the lowercase folding of `word`.
fn eq_folded(w: &str, word: &str) -> (r: bool)
    ensures
        r == (w@ == downcase_seq(word@)),
{
    let n = w.unicode_len();
    let m = word.unicode_len();
    if n != m {
        assert(w@.len() != downcase_seq(word@).len());
        return false;
    }
    let mut i: usize = 0;
    while i < n
        invariant
            n == w@.len() == word@.len(),
            i <= n,
            forall|j: int| 0 <= j < i ==> w@[j] == downcase_char(word@[j]),
        decreases n - i,
    {
        if w.get_char(i) != downcase(word.get_char(i)) {
            assert(w@[i as int] != downcase_seq(word@)[i as int]);
            return false;
        }
        i += 1;
    }
    assert(w@ =~= downcase_seq(word@));
    true
}

impl Wordlist {
    pub fn new(words: Vec<String>) -> (r: Self)
        ensures
            r@ == word_views(words@),
    {
        Wordlist { words }
    }

    /// Whether the word, lowercased, stands in the list. The list itself
    /// is stored as-is: only the candidate is folded.
    pub fn contains(&self, word: &str) -> (r: bool)
        ensures
            r == self@.contains(downcase_seq(word@)),
    {
        let mut i: usize = 0;
        while i < self.words.len()
            invariant
                i <= self.words.len(),
                forall|j: int| 0 <= j < i ==> (#[trigger] self@[j]) != downcase_seq(word@),
            decreases self.words.len() - i,
        {
            if eq_folded(self.words[i].as_str(), word) {
                assert(self@[i as int] == downcase_seq(word@));
                return true;
            }
            assert(self@[i as int] == self.words[i as int]@);
            i += 1;
        }
        assert(!self@.contains(downcase_seq(word@)));
        false
    }

    /// Splits a newline-delimited text into its word list, one word per
    /// line, dropping the carriage return of `\r\n` line endings.
    pub fn from_text(text: &str) -> (r: Self)
        ensures
            r@ == spec_lines(text@),
    {
        let n = text.unicode_len();
        let mut words: Vec<String> = Vec::new();
        let mut start: usize = 0;
        let mut i: usize = 0;
        proof {
            assert(word_views(words@) =~= Seq::<Seq<char>>::empty());
            assert(text@.skip(0) =~= text@);
            assert(word_views(words@) + spec_lines(text@.skip(0)) =~= spec_lines(text@));
        }
        while i < n
            invariant
                n == text@.len(),
                start <= i <= n,
                spec_lines(text@) == word_views(words@) + spec_lines(text@.skip(start as int)),
                forall|j: int| start <= j < i ==> text@[j] != '\n',
            decreases n - i,
        {
            if text.get_char(i) == '\n' {
                let ghost w0 = words@;
                let ghost rest = text@.skip(start as int);
                let mut end = i;
                if end > start && text.get_char(end - 1) == '\r' {
                    end = end - 1;
                }
                let line = text.substring_char(start, end);
                words.push(String::from_str(line));
                proof {
                    assert forall|j: int| 0 <= j < i - start implies rest[j] != '\n' by {
                        assert(rest[j] == text@[j + start]);
                    }
                    assert(rest[i - start] == text@[i as int]);
                    lemma_find_newline_at(rest, 0, i - start);
                    assert(rest.take(i - start) =~= text@.subrange(start as int, i as int));
                    assert(strip_cr(text@.subrange(start as int, i as int)) =~= text@.subrange(
                        start as int,
                        end as int,
                    ));
                    assert(rest.skip(i - start + 1) =~= text@.skip(i + 1));
                    assert(spec_lines(rest) == seq![line@] + spec_lines(text@.skip(i + 1)));
                    assert(word_views(words@) =~= word_views(w0).push(line@));
                    assert(word_views(words@) + spec_lines(text@.skip(i + 1)) =~= word_views(w0)
                        + spec_lines(rest));
                }
                start = i + 1;
            }
            i += 1;
        }
        let ghost rest = text@.skip(start as int);
        if start < n {
            let ghost w0 = words@;
            let line = text.substring_char(start, n);
            words.push(String::from_str(line));
            proof {
                assert forall|j: int| 0 <= j < rest.len() implies rest[j] != '\n' by {
                    assert(rest[j] == text@[j + start]);
                }
                lemma_find_newline_at(rest, 0, rest.len() as int);
                assert(line@ =~= rest);
                assert(spec_lines(rest) == seq![rest]);
                assert(word_views(words@) =~= word_views(w0).push(rest));
                assert(word_views(words@) =~= word_views(w0) + spec_lines(rest));
            }
        } else {
            assert(rest.len() == 0);
            assert(word_views(words@) + spec_lines(rest) =~= word_views(words@));
        }
        let r = Wordlist { words };
        assert(r@ =~= spec_lines(text@));
        r
    }
}

} // verus!
