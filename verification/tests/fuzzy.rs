use tally::fuzzy::{fuzzy_score, FuzzyMatcher, MAX_WORD};

#[test]
fn letters_match_in_order_and_without_regard_to_case() {
    let matcher = FuzzyMatcher::new();
    assert!(matcher.fuzzy_matches("orng", "ING/Orange"));
    assert!(matcher.fuzzy_matches("ING", "ing/orange"));
    assert!(!matcher.fuzzy_matches("gnro", "ING/Orange"));
    // Every word has to match, in whatever order.
    assert!(matcher.fuzzy_matches("orange ing", "ING/Orange"));
    assert!(!matcher.fuzzy_matches("orange nab", "ING/Orange"));
}

#[test]
fn an_empty_pattern_scores_every_text_zero() {
    assert_eq!(fuzzy_score("", ""), Some(0));
    assert_eq!(fuzzy_score("", "anything"), Some(0));
}

#[test]
fn a_match_at_a_boundary_scores_higher() {
    assert_eq!(fuzzy_score("a", "a"), Some(36));
    assert!(fuzzy_score("sh", "coffee shop") > fuzzy_score("sh", "mashup"));
}

#[test]
fn an_accented_word_that_starts_at_an_unfolded_letter_does_not_match() {
    // A final sigma folds to a sigma, and the accent switches normalisation off.
    assert_eq!(fuzzy_score("σé", "ςxσé"), None);
    assert_eq!(fuzzy_score("sé", "ſ sé"), None);
    assert!(fuzzy_score("σé", "xσé").is_some());
    assert!(fuzzy_score("sé", "s ſ sé").is_some());
    // The letter stands elsewhere, or the word has no accent, or one letter.
    assert!(fuzzy_score("é", "é ſ").is_some());
    assert!(fuzzy_score("éx", "éy ſx").is_some());
    assert!(fuzzy_score("σx", "ςxσx").is_some());
    assert!(fuzzy_score("é s", "ſ é s").is_some());
    assert_eq!(fuzzy_score("sé", "ſ é"), None);
}

#[test]
fn many_words_match_whatever_their_length_together() {
    let text = "ab ".repeat(1500);
    assert!(fuzzy_score(&text, &text).is_some());
}

#[test]
fn a_word_matches_up_to_the_longest_that_is_scored() {
    let longest = "a".repeat(MAX_WORD);
    let longer = "a".repeat(MAX_WORD + 1);
    assert!(fuzzy_score(&longest, &longer).is_some());
    assert_eq!(fuzzy_score(&longer, &longer), None);
    // A space in front of which a backslash stands does not end a word.
    let half = "a".repeat(MAX_WORD / 2);
    assert!(fuzzy_score(&format!("{half} {half}"), &longer).is_some());
    assert_eq!(fuzzy_score(&format!("{half}\\ {half}"), &longer), None);
}

#[test]
fn a_backslash_beside_an_accent_counts_for_what_it_becomes() {
    let word = format!("é{}", "\\".repeat(2519));
    let text = format!("é{}", "\\".repeat(5037));
    assert_eq!(fuzzy_score(&word, &text), None);
    let word = format!("é{}", "\\".repeat(1260));
    let text = format!("é{}", "\\".repeat(2519));
    assert!(fuzzy_score(&word, &text).is_some());
}
