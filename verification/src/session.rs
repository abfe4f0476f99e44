//! One game's mutable state: the secret words and the guess counter.
//!
//! A session starts `Active`; every accepted guess raises the counter by one;
//! the session ends — and is removed from the store — as soon as the counter
//! passes [`MAX_GUESSES`] or a guess comes back fully `Correct`. The grades
//! of the terminal guess are still returned to the caller.

use vstd::prelude::*;
use crate::chars::spec_is_word_char;
use crate::grading::{Grade, GradingError, grade_phrase, first_bad, unknown_at, spec_grade};
use crate::words::WordList;

verus! {

/// A session ends once its guess counter exceeds this bound.
pub const MAX_GUESSES: usize = 6;

/// A well-formed secret phrase: at least one word, every word non-empty and
/// made only of `a`-`z` and `0`-`9`.
pub open spec fn phrase_wf(ws: Seq<Seq<char>>) -> bool {
    &&& ws.len() > 0
    &&& forall|w: int| 0 <= w < ws.len() ==> (#[trigger] ws[w]).len() > 0
    &&& forall|w: int, j: int|
        #![trigger ws[w][j]]
        0 <= w < ws.len() && 0 <= j < ws[w].len() ==> spec_is_word_char(ws[w][j])
}

/// Every grade of every word is `Correct`.
pub open spec fn all_correct(gs: Seq<Vec<Grade>>) -> bool {
    forall|w: int, j: int|
        #![trigger gs[w]@[j]]
        0 <= w < gs.len() && 0 <= j < gs[w]@.len() ==> gs[w]@[j] == Grade::Correct
}

/// One game's state: the secret words, in order, and how many guesses have
/// been graded so far.
pub struct SessionState {
    pub words: Vec<String>,
    pub num_guesses: usize,
}

impl SessionState {
    /// The secret phrase is well-formed.
    pub open spec fn wf(&self) -> bool {
        phrase_wf(self.words.deep_view())
    }

    /// A fresh session over the given secret words, with no guesses yet.
    pub fn new(words: Vec<String>) -> (s: Self)
        ensures
            s.words == words,
            s.num_guesses == 0,
    {
        Self { words, num_guesses: 0 }
    }

    /// Grades one guessed phrase and, if grading succeeds, counts the guess
    /// and decides whether the session is over: the counter passed
    /// [`MAX_GUESSES`], or every grade is `Correct`. The grades are returned
    /// either way; a grading failure leaves the state untouched.
    ///
    /// The counter saturates at its maximum value instead of overflowing; it
    /// is monotonically non-decreasing in every case.
    pub fn apply_guess(&mut self, guess_words: &Vec<String>, dict: &WordList) -> (r: Result<
        (Vec<Vec<Grade>>, bool),
        GradingError,
    >)
        requires
            dict.wf(),
        ensures
            final(self).words == old(self).words,
            r is Err ==> *final(self) == *old(self),
            old(self).words@.len() != guess_words@.len() ==> r == Err::<
                (Vec<Vec<Grade>>, bool),
                GradingError,
            >(GradingError::WordCountMismatch(
                (old(self).words@.len() as usize),
                (guess_words@.len() as usize),
            )),
            old(self).words@.len() == guess_words@.len() ==> {
                let sv = old(self).words.deep_view();
                let gv = guess_words.deep_view();
                let b = first_bad(sv, gv, dict@, 0);
                &&& (b == sv.len() <==> r is Ok)
                &&& (r matches Ok(p) ==> {
                    &&& p.0@.len() == sv.len()
                    &&& forall|w: int|
                        0 <= w < sv.len() ==> (#[trigger] p.0@[w])@ == spec_grade(sv[w], gv[w])
                    &&& p.1 == (final(self).num_guesses > MAX_GUESSES || all_correct(p.0@))
                })
                &&& (b < sv.len() && unknown_at(sv, gv, dict@, b) ==> (r matches Err(e)
                    && e matches GradingError::UnknownWord(u) && u@ == gv[b]))
                &&& (b < sv.len() && !unknown_at(sv, gv, dict@, b) ==> r == Err::<
                    (Vec<Vec<Grade>>, bool),
                    GradingError,
                >(GradingError::LengthMismatch(
                    (sv[b].len() as usize),
                    (gv[b].len() as usize),
                )))
            },
            r is Ok ==> {
                &&& old(self).num_guesses < usize::MAX ==> final(self).num_guesses == old(
                    self,
                ).num_guesses + 1
                &&& old(self).num_guesses == usize::MAX ==> final(self).num_guesses == old(
                    self,
                ).num_guesses
            },
            final(self).num_guesses >= old(self).num_guesses,
    {
        let grades = match grade_phrase(&self.words, guess_words, dict) {
            Ok(g) => g,
            Err(e) => {
                return Err(e);
            },
        };
        if self.num_guesses < usize::MAX {
            self.num_guesses = self.num_guesses + 1;
        }
        let over_limit = self.num_guesses > MAX_GUESSES;
        let correct = all_grades_correct(&grades);
        Ok((grades, over_limit || correct))
    }
}

/// Whether every grade of every word is `Correct`.
pub fn all_grades_correct(gs: &Vec<Vec<Grade>>) -> (r: bool)
    ensures
        r == all_correct(gs@),
{
    let n = gs.len();
    let mut w: usize = 0;
    while w < n
        invariant
            w <= n,
            n == gs@.len(),
            forall|w2: int, j: int|
                #![trigger gs@[w2]@[j]]
                0 <= w2 < w && 0 <= j < gs@[w2]@.len() ==> gs@[w2]@[j] == Grade::Correct,
        decreases n - w,
    {
        let row = &gs[w];
        let m = row.len();
        let mut j: usize = 0;
        while j < m
            invariant
                j <= m,
                m == row@.len(),
                row == gs@[w as int],
                w < gs@.len(),
                forall|k: int| 0 <= k < j ==> row@[k] == Grade::Correct,
            decreases m - j,
        {
            if row[j] != Grade::Correct {
                return false;
            }
            j += 1;
        }
        w += 1;
    }
    true
}

} // verus!
