use phrasle::errors::AppError;
use phrasle::selector::{candidate_words, has_alnum, select, split_guess};
use phrasle::words::WordList;

fn strings(ws: &[&str]) -> Vec<String> {
    ws.iter().map(|w| w.to_string()).collect()
}

#[test]
fn candidate_is_lowercased_split_and_stripped() {
    let ws = candidate_words("Hello, World!");
    assert_eq!(ws, strings(&["hello", "world"]));
}

#[test]
fn candidate_drops_unmapped_characters() {
    // accented characters are dropped, not substituted
    let ws = candidate_words("Caf\u{e9} 24/7");
    assert_eq!(ws, strings(&["caf", "247"]));
}

#[test]
fn candidate_with_only_whitespace_yields_no_words() {
    assert_eq!(candidate_words("  \t "), Vec::<String>::new());
    assert_eq!(candidate_words(""), Vec::<String>::new());
}

#[test]
fn split_guess_keeps_raw_words() {
    assert_eq!(split_guess("  abba  Zoo  "), strings(&["abba", "Zoo"]));
}

#[test]
fn prefilter_checks_the_raw_string() {
    assert!(has_alnum("?!x"));
    assert!(!has_alnum("?! ... --"));
    assert!(!has_alnum(""));
}

#[test]
fn select_fails_without_candidates() {
    assert_eq!(select(&strings(&[])), Err(AppError::NoCandidates));
    assert_eq!(
        select(&strings(&["!!!", "  ", "\u{e9}\u{e8}"])),
        Err(AppError::NoCandidates)
    );
}

#[test]
fn select_single_candidate_is_deterministic() {
    let (words, lens) = select(&strings(&["Abc 12!"])).unwrap();
    assert_eq!(words, strings(&["abc", "12"]));
    assert_eq!(lens, vec![3, 2]);
}

#[test]
fn selected_words_match_lowercase_alnum() {
    let (words, _) = select(&strings(&["Mixed CASE 42, ok?"])).unwrap();
    assert!(!words.is_empty());
    for w in &words {
        assert!(!w.is_empty());
        assert!(w.chars().all(|c| c.is_ascii_lowercase() || c.is_ascii_digit()));
    }
}

#[test]
fn word_list_contains_exactly_its_words() {
    let wl = WordList::new(strings(&["cat", "dog", "horse"]));
    assert!(wl.contains("cat"));
    assert!(wl.contains("dog"));
    assert!(wl.contains("horse"));
    assert!(!wl.contains("cow"));
    assert!(!wl.contains("ca"));
    assert!(!wl.contains(""));
    assert!(!wl.contains("catt"));
}
