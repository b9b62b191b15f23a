use nerdle::{Guess, Hint};

#[test]
fn crate_against_crane() {
    let hints = Guess::new(String::from("CRATE")).hints("CRANE");
    assert_eq!(
        hints,
        vec![Hint::Correct, Hint::Correct, Hint::Correct, Hint::Incorrect, Hint::Correct]
    );
}

#[test]
fn react_against_crane() {
    let hints = Guess::new(String::from("REACT")).hints("CRANE");
    assert_eq!(
        hints,
        vec![Hint::Misplaced, Hint::Misplaced, Hint::Correct, Hint::Misplaced, Hint::Incorrect]
    );
}

#[test]
fn hints_are_case_insensitive() {
    let upper = Guess::new(String::from("CRATE")).hints("CRANE");
    let lower = Guess::new(String::from("crate")).hints("crane");
    let mixed = Guess::new(String::from("cRaTe")).hints("CrAnE");
    assert_eq!(upper, lower);
    assert_eq!(upper, mixed);
}

#[test]
fn shorter_guess_zips_positionally() {
    let hints = Guess::new(String::from("CR")).hints("CRANE");
    assert_eq!(hints, vec![Hint::Correct, Hint::Correct]);
}

#[test]
fn empty_guess_has_no_hints() {
    let hints = Guess::new(String::new()).hints("CRANE");
    assert_eq!(hints, vec![]);
}

#[test]
fn longer_guess_is_cut_to_solution_length() {
    let hints = Guess::new(String::from("CRANES")).hints("CRANE");
    assert_eq!(hints.len(), 5);
}

#[test]
fn repeated_letters_are_not_deduplicated() {
    // The solution holds one E, yet every non-positional E still scores
    // Misplaced: letter counts are deliberately not tracked.
    let hints = Guess::new(String::from("EEEEE")).hints("CRANE");
    assert_eq!(
        hints,
        vec![
            Hint::Misplaced,
            Hint::Misplaced,
            Hint::Misplaced,
            Hint::Misplaced,
            Hint::Correct
        ]
    );
}

#[test]
fn matches_ignores_case() {
    assert!(Guess::new(String::from("crane")).matches("CRANE"));
    assert!(Guess::new(String::from("CRANE")).matches("crane"));
    assert!(!Guess::new(String::from("CRATE")).matches("CRANE"));
    assert!(!Guess::new(String::from("CRAN")).matches("CRANE"));
}

#[test]
fn guess_to_string_round_trips() {
    let guess = Guess::new(String::from("CRANE"));
    assert_eq!(guess.to_string(), "CRANE");
}

#[test]
fn hint_css_classes() {
    assert_eq!(Hint::Correct.to_css_class(), "correct");
    assert_eq!(Hint::Incorrect.to_css_class(), "incorrect");
    assert_eq!(Hint::Misplaced.to_css_class(), "misplaced");
}
