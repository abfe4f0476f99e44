//! The game controller: ties the selector, the grading engine and the
//! session store together into the two operations callers see — starting a
//! game and submitting a guess.

use vstd::prelude::*;
use crate::errors::AppError;
use crate::grading::{Grade, first_bad, spec_grade};
use crate::selector::{select, split_guess, spec_candidate_words, spec_has_alnum, spec_split};
use crate::session::{SessionState, phrase_wf};
use crate::store::{SessionStore, grading_error_for};
use crate::words::WordList;

verus! {

/// What a caller gets back from a new game: the session id to guess under,
/// and the character count of each secret word, in order.
pub struct NewGameResult {
    pub id: u128,
    pub len: Vec<usize>,
}

/// The given lengths are exactly the word lengths of `words`, in order.
pub open spec fn lengths_of(words: Seq<Seq<char>>, lens: Seq<usize>) -> bool {
    lens.len() == words.len() && forall|w: int|
        0 <= w < lens.len() ==> #[trigger] lens[w] as nat == words[w].len()
}

/// Starts a new game from the outcome of the candidate fetch: selects one
/// eligible candidate at random, registers a fresh session over its words,
/// and reports the session id with the per-word lengths.
///
/// A failed fetch surfaces as `UpstreamUnavailable`; a fetch whose candidates
/// are all filtered out fails with `NoCandidates`.
pub fn newgame(store: &SessionStore, fetched: Result<Vec<String>, String>) -> (r: Result<
    NewGameResult,
    AppError,
>)
    ensures
        fetched matches Err(m) ==> (r matches Err(e) && e matches AppError::UpstreamUnavailable(
            msg,
        ) && msg == m),
        fetched matches Ok(cands) ==> {
            &&& ((forall|i: int| 0 <= i < cands@.len() ==> !spec_has_alnum(
                #[trigger] cands@[i]@,
            )) <==> (r matches Err(e) && e == AppError::NoCandidates))
            &&& ((exists|i: int|
                0 <= i < cands@.len() && #[trigger] spec_has_alnum(cands@[i]@)) ==> r is Ok)
            &&& (r matches Ok(res) ==> exists|i: int|
                0 <= i < cands@.len() && #[trigger] spec_has_alnum(cands@[i]@) && lengths_of(
                    spec_candidate_words(cands@[i]@),
                    res.len@,
                ) && res.len@.len() > 0)
        },
{
    let cands = match fetched {
        Ok(c) => c,
        Err(m) => {
            return Err(AppError::UpstreamUnavailable(m));
        },
    };
    let (words, lens) = match select(&cands) {
        Ok(p) => p,
        Err(e) => {
            return Err(e);
        },
    };
    let ghost wv = words.deep_view();
    let state = SessionState::new(words);
    proof {
        assert(state.wf());
    }
    let id = store.create(state);
    Ok(NewGameResult { id, len: lens })
}

/// Submits one guess for the session under `id`: the guess string is split
/// on whitespace into words, which are graded against the session's secret
/// words. An id that is not registered — or whose session already ended —
/// fails with `NoSession`; the grades or the grading error always arise from
/// grading the split guess against some well-formed secret phrase.
pub fn guess(store: &SessionStore, dict: &WordList, id: u128, guess_phrase: &str) -> (r: Result<
    Vec<Vec<Grade>>,
    AppError,
>)
    requires
        dict.wf(),
    ensures
        r matches Ok(g) ==> exists|sv: Seq<Seq<char>>|
            {
                let gv = spec_split(guess_phrase@);
                &&& #[trigger] phrase_wf(sv)
                &&& sv.len() == gv.len()
                &&& first_bad(sv, gv, dict@, 0) == sv.len()
                &&& g@.len() == sv.len()
                &&& forall|w: int|
                    0 <= w < sv.len() ==> (#[trigger] g@[w])@ == spec_grade(sv[w], gv[w])
            },
        r matches Err(e) ==> e is NoSession || e is Grading,
        r matches Err(e) ==> (e matches AppError::Grading(ge) ==> exists|sv: Seq<Seq<char>>|
            #[trigger] phrase_wf(sv) && grading_error_for(
                sv,
                spec_split(guess_phrase@),
                dict@,
                ge,
            )),
{
    let words = split_guess(guess_phrase);
    store.submit_guess(id, &words, dict)
}

} // verus!
