use nerdle::Wordlist;

#[test]
fn from_text_splits_lines() {
    let list = Wordlist::from_text("crane\ncrate\nreact");
    assert!(list.contains("crane"));
    assert!(list.contains("crate"));
    assert!(list.contains("react"));
    assert!(!list.contains("audio"));
}

#[test]
fn from_text_drops_a_final_line_ending() {
    let list = Wordlist::from_text("crane\ncrate\n");
    assert!(list.contains("crane"));
    assert!(list.contains("crate"));
    assert!(!list.contains(""));
}

#[test]
fn from_text_handles_carriage_returns() {
    let list = Wordlist::from_text("crane\r\ncrate\r\n");
    assert!(list.contains("crane"));
    assert!(list.contains("crate"));
}

#[test]
fn from_text_of_empty_text_accepts_nothing() {
    let list = Wordlist::from_text("");
    assert!(!list.contains(""));
    assert!(!list.contains("crane"));
}

#[test]
fn from_text_keeps_empty_interior_lines() {
    let list = Wordlist::from_text("crane\n\ncrate");
    assert!(list.contains(""));
}

#[test]
fn contains_lowercases_the_candidate_only() {
    let list = Wordlist::new(vec![String::from("crane")]);
    assert!(list.contains("CRANE"));
    assert!(list.contains("crane"));
    assert!(list.contains("CrAnE"));

    // The stored words are taken as-is: an uppercase entry is never hit,
    // because the candidate is folded to lowercase before comparing.
    let upper = Wordlist::new(vec![String::from("CRANE")]);
    assert!(!upper.contains("CRANE"));
    assert!(!upper.contains("crane"));
}

#[test]
fn default_wordlist_is_empty() {
    let list = Wordlist::default();
    assert!(!list.contains("crane"));
}
