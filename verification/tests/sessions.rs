use phrasle::controller::{guess, newgame};
use phrasle::errors::AppError;
use phrasle::grading::Grade;
use phrasle::session::{SessionState, MAX_GUESSES};
use phrasle::store::SessionStore;
use phrasle::words::WordList;

fn strings(ws: &[&str]) -> Vec<String> {
    ws.iter().map(|w| w.to_string()).collect()
}

#[test]
fn new_session_counts_from_zero() {
    let mut s = SessionState::new(strings(&["abc"]));
    let dict = WordList::new(strings(&["abd"]));
    let (grades, terminal) = s.apply_guess(&strings(&["abd"]), &dict).unwrap();
    assert_eq!(
        grades,
        vec![vec![Grade::Correct, Grade::Correct, Grade::Incorrect]]
    );
    assert!(!terminal);
}

#[test]
fn apply_guess_terminal_on_full_match() {
    let mut s = SessionState::new(strings(&["ab", "cd"]));
    let dict = WordList::new(strings(&[]));
    let (grades, terminal) = s.apply_guess(&strings(&["ab", "cd"]), &dict).unwrap();
    assert!(terminal);
    assert!(grades.iter().all(|row| row.iter().all(|g| *g == Grade::Correct)));
}

#[test]
fn apply_guess_terminal_past_limit() {
    let mut s = SessionState::new(strings(&["abc"]));
    let dict = WordList::new(strings(&["abd"]));
    for _ in 0..MAX_GUESSES {
        let (_, terminal) = s.apply_guess(&strings(&["abd"]), &dict).unwrap();
        assert!(!terminal);
    }
    // the seventh guess pushes the counter past the limit
    let (_, terminal) = s.apply_guess(&strings(&["abd"]), &dict).unwrap();
    assert!(terminal);
}

#[test]
fn submit_guess_unknown_id_is_no_session() {
    let store = SessionStore::new();
    let dict = WordList::new(strings(&[]));
    let r = store.submit_guess(12345, &strings(&["abc"]), &dict);
    assert_eq!(r, Err(AppError::NoSession));
}

#[test]
fn session_removed_after_guess_limit() {
    let store = SessionStore::new();
    let dict = WordList::new(strings(&["abd"]));
    let id = store.create(SessionState::new(strings(&["abc"])));
    // seven graded guesses, none fully correct, all accepted
    for _ in 0..7 {
        let r = store.submit_guess(id, &strings(&["abd"]), &dict);
        assert!(r.is_ok());
    }
    // the seventh exceeded the limit, so the session is gone
    let r = store.submit_guess(id, &strings(&["abd"]), &dict);
    assert_eq!(r, Err(AppError::NoSession));
}

#[test]
fn session_removed_after_win() {
    let store = SessionStore::new();
    let dict = WordList::new(strings(&[]));
    let id = store.create(SessionState::new(strings(&["ab"])));
    let r = store.submit_guess(id, &strings(&["ab"]), &dict).unwrap();
    assert_eq!(r, vec![vec![Grade::Correct, Grade::Correct]]);
    let r = store.submit_guess(id, &strings(&["ab"]), &dict);
    assert_eq!(r, Err(AppError::NoSession));
}

#[test]
fn submit_guess_grading_errors_pass_through() {
    let store = SessionStore::new();
    let dict = WordList::new(strings(&[]));
    let id = store.create(SessionState::new(strings(&["abc"])));
    let r = store.submit_guess(id, &strings(&["abc", "def"]), &dict);
    assert!(matches!(r, Err(AppError::Grading(_))));
    // a failed guess is not counted and does not end the session
    let r = store.submit_guess(id, &strings(&["abc"]), &dict);
    assert!(r.is_ok());
}

#[test]
fn newgame_upstream_failure() {
    let store = SessionStore::new();
    let r = newgame(&store, Err("connection refused".to_string()));
    assert_eq!(
        r.err(),
        Some(AppError::UpstreamUnavailable("connection refused".to_string()))
    );
}

#[test]
fn newgame_no_candidates() {
    let store = SessionStore::new();
    assert_eq!(
        newgame(&store, Ok(strings(&[]))).err(),
        Some(AppError::NoCandidates)
    );
    assert_eq!(
        newgame(&store, Ok(strings(&["???", " "]))).err(),
        Some(AppError::NoCandidates)
    );
}

#[test]
fn newgame_and_guess_roundtrip() {
    let store = SessionStore::new();
    let dict = WordList::new(strings(&[]));
    let res = newgame(&store, Ok(strings(&["Abba Gold!"]))).unwrap();
    assert_eq!(res.len, vec![4, 4]);
    let grades = guess(&store, &dict, res.id, "abba gold").unwrap();
    assert!(grades.iter().all(|row| row.iter().all(|g| *g == Grade::Correct)));
    // the win removed the session
    let r = guess(&store, &dict, res.id, "abba gold");
    assert_eq!(r, Err(AppError::NoSession));
}

#[test]
fn guess_splits_on_whitespace() {
    let store = SessionStore::new();
    let dict = WordList::new(strings(&[]));
    let res = newgame(&store, Ok(strings(&["cat dog"]))).unwrap();
    let grades = guess(&store, &dict, res.id, "  cat   dog ").unwrap();
    assert_eq!(grades.len(), 2);
    assert!(grades.iter().all(|row| row.iter().all(|g| *g == Grade::Correct)));
}

#[test]
fn error_status_codes() {
    assert_eq!(AppError::NoSession.status_code(), 404);
    assert_eq!(AppError::NoCandidates.status_code(), 400);
    assert_eq!(
        AppError::UpstreamUnavailable("x".to_string()).status_code(),
        500
    );
    assert_eq!(
        AppError::Grading(phrasle::grading::GradingError::LengthMismatch(1, 2)).status_code(),
        400
    );
}
