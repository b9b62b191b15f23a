//! The daily puzzle descriptor, as the puzzle source delivers it, and the
//! session configuration built around it.

use vstd::prelude::*;

verus! {

/// One day's puzzle: its id, secret solution and metadata.
#[derive(Clone, Debug, PartialEq)]
pub struct Wordle {
    pub days_since_launch: usize,
    pub editor: String,
    pub id: u32,
    pub print_date: String,
    pub solution: String,
}

impl Default for Wordle {
    /// The placeholder puzzle shown before the real one arrives: sentinel
    /// id and everything empty.
    fn default() -> (r: Self)
        ensures
            r.days_since_launch == 0,
            r.editor@ == Seq::<char>::empty(),
            r.id == 0,
            r.print_date@ == Seq::<char>::empty(),
            r.solution@ == Seq::<char>::empty(),
    {
        Wordle {
            days_since_launch: 0,
            editor: String::new(),
            id: 0,
            print_date: String::new(),
            solution: String::new(),
        }
    }
}

/// What the session is configured with.
#[derive(Clone, Debug, PartialEq)]
pub struct Config {
    pub wordle: Wordle,
}

impl Default for Config {
    fn default() -> (r: Self)
        ensures
            r.wordle.id == 0,
            r.wordle.solution@ == Seq::<char>::empty(),
    {
        Config { wordle: Wordle::default() }
    }
}

} // verus!
