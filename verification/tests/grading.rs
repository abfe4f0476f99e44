use phrasle::grading::{grade, grade_phrase, Grade, GradingError};
use phrasle::words::WordList;

fn strings(ws: &[&str]) -> Vec<String> {
    ws.iter().map(|w| w.to_string()).collect()
}

#[test]
fn grade_self_is_all_correct() {
    let r = grade("abc", "abc").unwrap();
    assert_eq!(r, vec![Grade::Correct, Grade::Correct, Grade::Correct]);
}

#[test]
fn grade_abb_bab() {
    let r = grade("abb", "bab").unwrap();
    assert_eq!(r, vec![Grade::WrongPlace, Grade::WrongPlace, Grade::Correct]);
}

#[test]
fn grade_deed_eedd() {
    let r = grade("deed", "eedd").unwrap();
    assert_eq!(
        r,
        vec![Grade::WrongPlace, Grade::Correct, Grade::WrongPlace, Grade::Correct]
    );
}

#[test]
fn grade_length_mismatch_iff_lengths_differ() {
    assert_eq!(grade("abc", "ab"), Err(GradingError::LengthMismatch(3, 2)));
    assert_eq!(grade("ab", "abc"), Err(GradingError::LengthMismatch(2, 3)));
    assert!(grade("abc", "xyz").is_ok());
    assert!(grade("", "").is_ok());
}

#[test]
fn duplicate_letters_capped_by_secret_count() {
    // the secret holds two `a`s; a guess of three `a`s is rewarded twice
    let r = grade("aab", "aaa").unwrap();
    assert_eq!(r, vec![Grade::Correct, Grade::Correct, Grade::Incorrect]);
    // one `b` in the secret: only the first unmatched `b` of the guess counts
    let r = grade("abc", "bbz").unwrap();
    assert_eq!(r, vec![Grade::Incorrect, Grade::Correct, Grade::Incorrect]);
}

#[test]
fn wrong_place_takes_earliest_secret_slot() {
    // both secret `b`s are free; the guess's first `b` takes the earliest
    let r = grade("bab", "xbb").unwrap();
    assert_eq!(r, vec![Grade::Incorrect, Grade::WrongPlace, Grade::Correct]);
}

#[test]
fn grade_ordering() {
    assert!(Grade::Incorrect < Grade::WrongPlace);
    assert!(Grade::WrongPlace < Grade::Correct);
}

#[test]
fn phrase_no_shared_letters_all_incorrect() {
    let dict = WordList::new(strings(&["dog", "cat"]));
    let r = grade_phrase(&strings(&["cat", "dog"]), &strings(&["dog", "cat"]), &dict).unwrap();
    assert_eq!(r.len(), 2);
    for row in &r {
        assert_eq!(row.len(), 3);
        assert!(row.iter().all(|g| *g == Grade::Incorrect));
    }
}

#[test]
fn phrase_word_count_mismatch() {
    let dict = WordList::new(strings(&[]));
    let r = grade_phrase(&strings(&["cat", "dog"]), &strings(&["cat"]), &dict);
    assert_eq!(r, Err(GradingError::WordCountMismatch(2, 1)));
}

#[test]
fn phrase_unknown_word() {
    let dict = WordList::new(strings(&[]));
    let r = grade_phrase(&strings(&["cat"]), &strings(&["dog"]), &dict);
    assert_eq!(r, Err(GradingError::UnknownWord("dog".to_string())));
}

#[test]
fn phrase_stops_at_first_offending_word() {
    // both guess words are invalid; only the first is reported
    let dict = WordList::new(strings(&["bbbb"]));
    let r = grade_phrase(
        &strings(&["cat", "dog"]),
        &strings(&["zzz", "yyyy"]),
        &dict,
    );
    assert_eq!(r, Err(GradingError::UnknownWord("zzz".to_string())));
    // the first pair is fine, the second word has a known word's wrong length
    let r = grade_phrase(
        &strings(&["cat", "dog"]),
        &strings(&["cat", "bbbb"]),
        &dict,
    );
    assert_eq!(r, Err(GradingError::LengthMismatch(3, 4)));
}

#[test]
fn phrase_guess_equal_to_secret_needs_no_dictionary() {
    let dict = WordList::new(strings(&[]));
    let r = grade_phrase(&strings(&["cat"]), &strings(&["cat"]), &dict).unwrap();
    assert_eq!(r, vec![vec![Grade::Correct, Grade::Correct, Grade::Correct]]);
}
