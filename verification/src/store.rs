//! The concurrent session store: a mapping from session id to session state,
//! safe for many simultaneous callers, with independent concurrency across
//! distinct sessions.
//!
//! Two-tier locking discipline:
//! - the *outer* lock guards the map's structure: exclusive only for insert
//!   and remove, shared while an entry is being resolved and worked on;
//! - one *inner* lock per entry guards that session's fields, held only while
//!   grading and updating that single session, so independent sessions never
//!   contend with each other.
//!
//! Grading never runs under the exclusive outer lock, and removal never runs
//! under an inner lock, so no deadlock ordering cycle can form. Between
//! releasing the inner lock and finishing a terminal removal, a concurrent
//! guess for the same id may still find and mutate the entry and push the
//! counter further past the limit; it gets a normal grading result and the
//! entry is still removed afterwards. That race is deliberate and tolerated.

use vstd::prelude::*;
use vstd::rwlock::{RwLock, RwLockPredicate};
use std::collections::HashMap;
use crate::errors::AppError;
use crate::grading::{Grade, GradingError, first_bad, unknown_at, spec_grade};
use crate::session::{SessionState, all_correct, phrase_wf};
use crate::words::WordList;

verus! {

/// The invariant of one session entry's lock: only well-formed sessions are
/// stored.
pub struct SessionPred;

impl RwLockPredicate<SessionState> for SessionPred {
    open spec fn inv(self, s: SessionState) -> bool {
        s.wf()
    }
}

/// One stored session: its state behind its own lock.
pub type SessionEntry = RwLock<SessionState, SessionPred>;

/// The invariant of the outer lock guarding the map structure. Each entry
/// carries its own invariant in its lock, so the map itself is unconstrained.
pub struct TablePred;

impl RwLockPredicate<HashMap<u128, SessionEntry>> for TablePred {
    open spec fn inv(self, m: HashMap<u128, SessionEntry>) -> bool {
        true
    }
}

/// Relies on `uuid::Uuid::new_v4` and `Uuid::as_u128`: a fresh random
/// version-4 UUID as its 128-bit value. The value is random; nothing is
/// promised of it.
#[verifier::external_body]
fn new_session_id() -> u128 {
    uuid::Uuid::new_v4().as_u128()
}

/// How a grading error returned by the store relates to some secret phrase
/// `sv` and the guessed words `gv`: either the word counts differ, or the
/// first ungradable pair decides the error.
pub open spec fn grading_error_for(
    sv: Seq<Seq<char>>,
    gv: Seq<Seq<char>>,
    dict: Set<Seq<char>>,
    e: GradingError,
) -> bool {
    if sv.len() != gv.len() {
        e == GradingError::WordCountMismatch((sv.len() as usize), (gv.len() as usize))
    } else {
        let b = first_bad(sv, gv, dict, 0);
        &&& b < sv.len()
        &&& (unknown_at(sv, gv, dict, b) ==> (e matches GradingError::UnknownWord(u) && u@
            == gv[b]))
        &&& (!unknown_at(sv, gv, dict, b) ==> e == GradingError::LengthMismatch(
            (sv[b].len() as usize),
            (gv[b].len() as usize),
        ))
    }
}

/// The concurrent container owning all live sessions, keyed by session id.
pub struct SessionStore {
    table: RwLock<HashMap<u128, SessionEntry>, TablePred>,
}

impl SessionStore {
    /// An empty store.
    pub fn new() -> SessionStore {
        SessionStore { table: RwLock::new(HashMap::new(), Ghost(TablePred)) }
    }

    /// Registers a fresh session and returns its new id. The exclusive outer
    /// lock is held only for the insert.
    pub fn create(&self, state: SessionState) -> (id: u128)
        requires
            state.wf(),
    {
        let id = new_session_id();
        let entry = RwLock::new(state, Ghost(SessionPred));
        let (mut map, handle) = self.table.acquire_write();
        map.insert(id, entry);
        handle.release_write(map);
        id
    }

    /// Grades one guess against the session registered under `id`.
    ///
    /// The outer lock is held shared to resolve the entry; the entry's own
    /// lock is held while grading and updating that session; if the guess
    /// ended the session, the entry is removed afterwards under the
    /// exclusive outer lock, which is never held during grading.
    ///
    /// An unregistered (or already removed) id fails with `NoSession`. Any
    /// returned grades or grading error arose from grading the guess against
    /// some well-formed secret phrase. The table itself sits behind the
    /// outer lock, so this contract cannot name its contents; the under-lock
    /// step [`grade_in_table`] states the exact condition: `NoSession` comes
    /// back iff the table does not hold the id.
    pub fn submit_guess(&self, id: u128, guess_words: &Vec<String>, dict: &WordList) -> (r: Result<
        Vec<Vec<Grade>>,
        AppError,
    >)
        requires
            dict.wf(),
        ensures
            r matches Ok(g) ==> exists|sv: Seq<Seq<char>>|
                {
                    let gv = guess_words.deep_view();
                    &&& #[trigger] phrase_wf(sv)
                    &&& sv.len() == gv.len()
                    &&& first_bad(sv, gv, dict@, 0) == sv.len()
                    &&& g@.len() == sv.len()
                    &&& forall|w: int|
                        0 <= w < sv.len() ==> (#[trigger] g@[w])@ == spec_grade(sv[w], gv[w])
                },
            r matches Err(e) ==> e is NoSession || e is Grading,
            r matches Err(e) ==> (e matches AppError::Grading(ge) ==> exists|sv: Seq<Seq<char>>|
                #[trigger] phrase_wf(sv) && grading_error_for(
                    sv,
                    guess_words.deep_view(),
                    dict@,
                    ge,
                )),
    {
        let handle = self.table.acquire_read();
        let (outcome, terminal) = grade_in_table(handle.borrow(), id, guess_words, dict);
        handle.release_read();
        if terminal {
            let (mut map, write_handle) = self.table.acquire_write();
            map.remove(&id);
            write_handle.release_write(map);
        }
        outcome
    }
}

/// One guess graded against the table as it stands: resolves the entry,
/// runs the session step under that entry's own lock, and reports whether
/// the session ended. Fails with `NoSession` exactly when the table does not
/// hold the id.
pub fn grade_in_table(
    map: &HashMap<u128, SessionEntry>,
    id: u128,
    guess_words: &Vec<String>,
    dict: &WordList,
) -> (r: (Result<Vec<Vec<Grade>>, AppError>, bool))
    requires
        dict.wf(),
    ensures
        r.0 == Err::<Vec<Vec<Grade>>, AppError>(AppError::NoSession) <==> !map@.dom().contains(id),
        r.0 matches Ok(g) ==> exists|sv: Seq<Seq<char>>|
            {
                let gv = guess_words.deep_view();
                &&& #[trigger] phrase_wf(sv)
                &&& sv.len() == gv.len()
                &&& first_bad(sv, gv, dict@, 0) == sv.len()
                &&& g@.len() == sv.len()
                &&& forall|w: int|
                    0 <= w < sv.len() ==> (#[trigger] g@[w])@ == spec_grade(sv[w], gv[w])
            },
        r.0 matches Err(e) ==> e is NoSession || e is Grading,
        r.0 matches Err(e) ==> (e matches AppError::Grading(ge) ==> exists|sv: Seq<Seq<char>>|
            #[trigger] phrase_wf(sv) && grading_error_for(
                sv,
                guess_words.deep_view(),
                dict@,
                ge,
            )),
        r.1 ==> r.0 is Ok,
        r.0 matches Ok(g) ==> (all_correct(g@) ==> r.1),
{
    let mut outcome: Result<Vec<Vec<Grade>>, AppError> = Err(AppError::NoSession);
    let mut terminal = false;
    match map.get(&id) {
        None => {},
        Some(entry) => {
            let (mut state, entry_handle) = entry.acquire_write();
            let ghost sv = state.words.deep_view();
            let ghost gv = guess_words.deep_view();
            proof {
                assert(sv.len() == state.words@.len());
                assert(gv.len() == guess_words@.len());
            }
            match state.apply_guess(guess_words, dict) {
                Ok((grades, done)) => {
                    terminal = done;
                    proof {
                        assert(phrase_wf(sv));
                        assert(sv.len() == gv.len());
                        assert(first_bad(sv, gv, dict@, 0) == sv.len());
                        assert(grades@.len() == sv.len());
                        assert(forall|w: int|
                            0 <= w < sv.len() ==> (#[trigger] grades@[w])@ == spec_grade(
                                sv[w],
                                gv[w],
                            ));
                    }
                    outcome = Ok(grades);
                },
                Err(e) => {
                    proof {
                        assert(phrase_wf(sv));
                        if sv.len() == gv.len() {
                            crate::grading::lemma_first_bad_bounds(sv, gv, dict@);
                        }
                        assert(grading_error_for(sv, gv, dict@, e));
                    }
                    outcome = Err(AppError::Grading(e));
                },
            }
            entry_handle.release_write(state);
        },
    }
    (outcome, terminal)
}

} // verus!
