//! The grading engine: per-letter outcomes for one guessed word against one
//! secret word.
//!
//! Grading runs in two passes. Pass one records `Correct` wherever the guess
//! and the secret agree, consuming both positions. Pass two walks the
//! remaining guess positions left to right; each one takes the leftmost
//! unconsumed secret position holding the same letter (`WrongPlace`), or is
//! left `Incorrect`. This gives the duplicate-letter cap: a letter is never
//! rewarded more often than it occurs in the secret, and ties among duplicate
//! positions go to the earliest secret occurrence.

use vstd::prelude::*;
use crate::chars::{str_chars, str_eq};
use crate::words::WordList;

verus! {

/// The verdict for one character of a guessed word.
/// Verdicts are ordered `Incorrect < WrongPlace < Correct`.
#[derive(Debug, PartialEq, Eq, Structural, Default, Clone, Copy, Hash, PartialOrd, Ord)]
pub enum Grade {
    #[default]
    Incorrect,
    WrongPlace,
    Correct,
}

/// Why a guessed word or phrase could not be graded.
#[derive(Debug, PartialEq, Eq, Clone)]
pub enum GradingError {
    /// The guessed word has the wrong character count: `(expected, actual)`.
    LengthMismatch(usize, usize),
    /// The guessed phrase has the wrong word count: `(expected, actual)`.
    WordCountMismatch(usize, usize),
    /// The guessed word differs from the secret word and is not in the word list.
    UnknownWord(String),
}

/// The secret positions still available after pass one: `None` where the
/// guess already matched, otherwise the secret's character at that position.
pub open spec fn pass1_keep(secret: Seq<char>, guess: Seq<char>) -> Seq<Option<char>> {
    Seq::new(secret.len(), |j: int| if guess[j] == secret[j] { None } else { Some(secret[j]) })
}

/// The first index at or after `j` whose slot still holds `c`, or the length
/// of `avail` if no such slot remains.
pub open spec fn find_slot(avail: Seq<Option<char>>, c: char, j: int) -> int
    decreases avail.len() - j,
{
    if j < 0 || j >= avail.len() {
        avail.len() as int
    } else if avail[j] == Some(c) {
        j
    } else {
        find_slot(avail, c, j + 1)
    }
}

/// The grades for guess positions `i..` given the secret slots still
/// available. A position matching the secret exactly is `Correct`; otherwise
/// the leftmost available slot with the same letter is consumed for
/// `WrongPlace`; otherwise the position is `Incorrect`.
pub open spec fn pass2(secret: Seq<char>, guess: Seq<char>, avail: Seq<Option<char>>, i: int) -> Seq<Grade>
    decreases guess.len() - i,
{
    if i < 0 || i >= guess.len() {
        Seq::empty()
    } else if guess[i] == secret[i] {
        seq![Grade::Correct] + pass2(secret, guess, avail, i + 1)
    } else {
        let k = find_slot(avail, guess[i], 0);
        if k < avail.len() {
            seq![Grade::WrongPlace] + pass2(secret, guess, avail.update(k, None), i + 1)
        } else {
            seq![Grade::Incorrect] + pass2(secret, guess, avail, i + 1)
        }
    }
}

/// The grade sequence for one guessed word against one secret word of the
/// same length.
pub open spec fn spec_grade(secret: Seq<char>, guess: Seq<char>) -> Seq<Grade>
    recommends
        secret.len() == guess.len(),
{
    pass2(secret, guess, pass1_keep(secret, guess), 0)
}

proof fn lemma_find_slot_props(avail: Seq<Option<char>>, c: char, j: int)
    requires
        0 <= j <= avail.len(),
    ensures
        j <= find_slot(avail, c, j) <= avail.len(),
        find_slot(avail, c, j) < avail.len() ==> avail[find_slot(avail, c, j)] == Some(c),
        forall|m: int| j <= m < find_slot(avail, c, j) ==> avail[m] != Some(c),
    decreases avail.len() - j,
{
    if j < avail.len() && avail[j] != Some(c) {
        lemma_find_slot_props(avail, c, j + 1);
    }
}

proof fn lemma_find_slot_at(avail: Seq<Option<char>>, c: char, j: int, k: int)
    requires
        0 <= j <= k < avail.len(),
        avail[k] == Some(c),
        forall|m: int| j <= m < k ==> avail[m] != Some(c),
    ensures
        find_slot(avail, c, j) == k,
    decreases k - j,
{
    if j < k {
        lemma_find_slot_at(avail, c, j + 1, k);
    }
}

proof fn lemma_find_slot_none(avail: Seq<Option<char>>, c: char, j: int)
    requires
        0 <= j <= avail.len(),
        forall|m: int| j <= m < avail.len() ==> avail[m] != Some(c),
    ensures
        find_slot(avail, c, j) == avail.len(),
    decreases avail.len() - j,
{
    if j < avail.len() {
        lemma_find_slot_none(avail, c, j + 1);
    }
}

/// Grading a word against itself yields `Correct` at every position.
pub proof fn lemma_grade_self(s: Seq<char>)
    requires
        s.len() > 0,
    ensures
        spec_grade(s, s).len() == s.len(),
        forall|i: int| 0 <= i < s.len() ==> spec_grade(s, s)[i] == Grade::Correct,
{
    lemma_pass2_all_correct(s, pass1_keep(s, s), 0);
}

proof fn lemma_pass2_all_correct(s: Seq<char>, avail: Seq<Option<char>>, i: int)
    requires
        0 <= i <= s.len(),
    ensures
        pass2(s, s, avail, i).len() == s.len() - i,
        forall|m: int| 0 <= m < s.len() - i ==> pass2(s, s, avail, i)[m] == Grade::Correct,
    decreases s.len() - i,
{
    if i < s.len() {
        lemma_pass2_all_correct(s, avail, i + 1);
    }
}

// --- counting, for the duplicate-letter cap ---

/// How many characters of `s` equal `c`.
pub open spec fn count_char(s: Seq<char>, c: char) -> nat
    decreases s.len(),
{
    if s.len() == 0 {
        0
    } else {
        (if s[0] == c { 1nat } else { 0nat }) + count_char(s.drop_first(), c)
    }
}

/// How many slots of `avail` still hold `c`.
pub open spec fn count_slot(avail: Seq<Option<char>>, c: char) -> nat
    decreases avail.len(),
{
    if avail.len() == 0 {
        0
    } else {
        (if avail[0] == Some(c) { 1nat } else { 0nat }) + count_slot(avail.drop_first(), c)
    }
}

/// How many positions hold the letter `c` in the guess and were rewarded
/// (`Correct` or `WrongPlace`) in the grades.
pub open spec fn count_hits(guess: Seq<char>, grades: Seq<Grade>, c: char) -> nat
    recommends
        guess.len() == grades.len(),
    decreases guess.len(),
{
    if guess.len() == 0 || grades.len() == 0 {
        0
    } else {
        (if guess[0] == c && grades[0] != Grade::Incorrect { 1nat } else { 0nat })
            + count_hits(guess.drop_first(), grades.drop_first(), c)
    }
}

/// How many aligned positions agree and hold the letter `c`.
pub open spec fn count_pair_matches(secret: Seq<char>, guess: Seq<char>, c: char) -> nat
    recommends
        secret.len() == guess.len(),
    decreases secret.len(),
{
    if secret.len() == 0 || guess.len() == 0 {
        0
    } else {
        (if secret[0] == guess[0] && secret[0] == c { 1nat } else { 0nat })
            + count_pair_matches(secret.drop_first(), guess.drop_first(), c)
    }
}

proof fn lemma_count_slot_update(avail: Seq<Option<char>>, k: int, c: char)
    requires
        0 <= k < avail.len(),
    ensures
        count_slot(avail.update(k, None), c)
            == count_slot(avail, c) - (if avail[k] == Some(c) { 1int } else { 0int }),
    decreases avail.len(),
{
    if k == 0 {
        assert(avail.update(0, None).drop_first() =~= avail.drop_first());
    } else {
        assert(avail.update(k, None).drop_first() =~= avail.drop_first().update(k - 1, None));
        lemma_count_slot_update(avail.drop_first(), k - 1, c);
    }
}

proof fn lemma_pass2_cap(secret: Seq<char>, guess: Seq<char>, avail: Seq<Option<char>>, i: int, c: char)
    requires
        secret.len() == guess.len(),
        avail.len() == secret.len(),
        0 <= i <= guess.len(),
    ensures
        count_hits(guess.skip(i), pass2(secret, guess, avail, i), c)
            <= count_pair_matches(secret.skip(i), guess.skip(i), c) + count_slot(avail, c),
    decreases guess.len() - i,
{
    if i < guess.len() {
        let gs = guess.skip(i);
        let ss = secret.skip(i);
        assert(gs.drop_first() =~= guess.skip(i + 1));
        assert(ss.drop_first() =~= secret.skip(i + 1));
        if guess[i] == secret[i] {
            let rest = pass2(secret, guess, avail, i + 1);
            assert((seq![Grade::Correct] + rest).drop_first() =~= rest);
            lemma_pass2_cap(secret, guess, avail, i + 1, c);
        } else {
            let k = find_slot(avail, guess[i], 0);
            lemma_find_slot_props(avail, guess[i], 0);
            if k < avail.len() {
                let avail2 = avail.update(k, None);
                let rest = pass2(secret, guess, avail2, i + 1);
                assert((seq![Grade::WrongPlace] + rest).drop_first() =~= rest);
                lemma_count_slot_update(avail, k, c);
                lemma_pass2_cap(secret, guess, avail2, i + 1, c);
            } else {
                let rest = pass2(secret, guess, avail, i + 1);
                assert((seq![Grade::Incorrect] + rest).drop_first() =~= rest);
                lemma_pass2_cap(secret, guess, avail, i + 1, c);
            }
        }
    }
}

proof fn lemma_pass1_split(secret: Seq<char>, guess: Seq<char>, c: char)
    requires
        secret.len() == guess.len(),
    ensures
        count_pair_matches(secret, guess, c) + count_slot(pass1_keep(secret, guess), c)
            == count_char(secret, c),
    decreases secret.len(),
{
    if secret.len() > 0 {
        assert(pass1_keep(secret, guess).drop_first()
            =~= pass1_keep(secret.drop_first(), guess.drop_first()));
        lemma_pass1_split(secret.drop_first(), guess.drop_first(), c);
    }
}

/// The duplicate-letter cap: for any letter, the number of guess positions
/// holding that letter that are rewarded (`Correct` or `WrongPlace`) never
/// exceeds the number of times the letter occurs in the secret.
pub proof fn lemma_duplicate_letter_cap(secret: Seq<char>, guess: Seq<char>, c: char)
    requires
        secret.len() == guess.len(),
    ensures
        count_hits(guess, spec_grade(secret, guess), c) <= count_char(secret, c),
{
    let avail = pass1_keep(secret, guess);
    assert(guess.skip(0) =~= guess);
    assert(secret.skip(0) =~= secret);
    lemma_pass2_cap(secret, guess, avail, 0, c);
    lemma_pass1_split(secret, guess, c);
}

// --- executable grading ---

/// The grades for one guessed word against one secret word, both given as
/// character vectors of equal length.
pub fn grade_chars(secret: &Vec<char>, guess: &Vec<char>) -> (r: Vec<Grade>)
    requires
        secret@.len() == guess@.len(),
    ensures
        r@ == spec_grade(secret@, guess@),
        r@.len() == secret@.len(),
{
    let n = secret.len();

    let mut avail: Vec<Option<char>> = Vec::new();
    let mut j: usize = 0;
    while j < n
        invariant
            j <= n,
            n == secret@.len(),
            n == guess@.len(),
            avail@ =~= pass1_keep(secret@, guess@).subrange(0, j as int),
        decreases n - j,
    {
        if guess[j] == secret[j] {
            avail.push(None);
        } else {
            avail.push(Some(secret[j]));
        }
        proof {
            assert(avail@ =~= pass1_keep(secret@, guess@).subrange(0, j + 1));
        }
        j += 1;
    }
    proof {
        assert(avail@ =~= pass1_keep(secret@, guess@));
    }

    let mut ret: Vec<Grade> = Vec::new();
    let mut i: usize = 0;
    while i < n
        invariant
            i <= n,
            n == secret@.len(),
            n == guess@.len(),
            avail@.len() == n,
            ret@.len() == i,
            spec_grade(secret@, guess@) =~= ret@ + pass2(secret@, guess@, avail@, i as int),
        decreases n - i,
    {
        let ghost avail0 = avail@;
        let ghost ret0 = ret@;
        let c = guess[i];
        if c == secret[i] {
            ret.push(Grade::Correct);
            proof {
                let rest = pass2(secret@, guess@, avail@, i + 1);
                assert(pass2(secret@, guess@, avail@, i as int) =~= seq![Grade::Correct] + rest);
                assert(ret@ + rest =~= ret0 + (seq![Grade::Correct] + rest));
            }
        } else {
            let mut k: usize = 0;
            let mut found = false;
            while k < n && !found
                invariant
                    k <= n,
                    avail@.len() == n,
                    !found ==> forall|m: int| 0 <= m < k ==> avail@[m] != Some(c),
                    found ==> (k < n && avail@[k as int] == Some(c)
                        && forall|m: int| 0 <= m < k ==> avail@[m] != Some(c)),
                decreases n - k + (if found { 0int } else { 1int }),
            {
                let hit = match avail[k] {
                    Some(x) => x == c,
                    None => false,
                };
                if hit {
                    found = true;
                } else {
                    k += 1;
                }
            }
            if found {
                proof {
                    lemma_find_slot_at(avail@, c, 0, k as int);
                }
                avail.set(k, None);
                ret.push(Grade::WrongPlace);
                proof {
                    let rest = pass2(secret@, guess@, avail@, i + 1);
                    assert(pass2(secret@, guess@, avail0, i as int)
                        =~= seq![Grade::WrongPlace] + rest);
                    assert(ret@ + rest =~= ret0 + (seq![Grade::WrongPlace] + rest));
                }
            } else {
                proof {
                    lemma_find_slot_none(avail@, c, 0);
                }
                ret.push(Grade::Incorrect);
                proof {
                    let rest = pass2(secret@, guess@, avail@, i + 1);
                    assert(pass2(secret@, guess@, avail0, i as int)
                        =~= seq![Grade::Incorrect] + rest);
                    assert(ret@ + rest =~= ret0 + (seq![Grade::Incorrect] + rest));
                }
            }
        }
        i += 1;
    }
    proof {
        assert(ret@ + pass2(secret@, guess@, avail@, n as int) =~= ret@);
    }
    ret
}

/// Grades one guessed word against one secret word, or reports a character
/// count mismatch. Lengths are counted in characters.
pub fn grade(expected: &str, guess: &str) -> (r: Result<Vec<Grade>, GradingError>)
    ensures
        expected@.len() == guess@.len() ==> (r matches Ok(g) && g@ == spec_grade(
            expected@,
            guess@,
        ) && g@.len() == expected@.len()),
        expected@.len() != guess@.len() ==> (r matches Err(e) && e == GradingError::LengthMismatch(
            (expected@.len() as usize),
            (guess@.len() as usize),
        )),
{
    let e = str_chars(expected);
    let g = str_chars(guess);
    if e.len() != g.len() {
        return Err(GradingError::LengthMismatch(e.len(), g.len()));
    }
    Ok(grade_chars(&e, &g))
}

// --- phrase-level grading ---

/// The guess word at `i` differs from the secret word and is not in the
/// dictionary: grading stops with `UnknownWord`.
pub open spec fn unknown_at(
    secrets: Seq<Seq<char>>,
    guesses: Seq<Seq<char>>,
    dict: Set<Seq<char>>,
    i: int,
) -> bool {
    guesses[i] != secrets[i] && !dict.contains(guesses[i])
}

/// The pair at `i` cannot be graded: the guess word is unknown, or its
/// character count differs from the secret word's.
pub open spec fn bad_at(
    secrets: Seq<Seq<char>>,
    guesses: Seq<Seq<char>>,
    dict: Set<Seq<char>>,
    i: int,
) -> bool {
    unknown_at(secrets, guesses, dict, i) || guesses[i].len() != secrets[i].len()
}

/// The first index at or after `i` whose pair cannot be graded, or the word
/// count if every pair can be.
pub open spec fn first_bad(
    secrets: Seq<Seq<char>>,
    guesses: Seq<Seq<char>>,
    dict: Set<Seq<char>>,
    i: int,
) -> int
    decreases secrets.len() - i,
{
    if i < 0 || i >= secrets.len() {
        secrets.len() as int
    } else if bad_at(secrets, guesses, dict, i) {
        i
    } else {
        first_bad(secrets, guesses, dict, i + 1)
    }
}

proof fn lemma_first_bad_at(
    secrets: Seq<Seq<char>>,
    guesses: Seq<Seq<char>>,
    dict: Set<Seq<char>>,
    j: int,
    i: int,
)
    requires
        0 <= j <= i < secrets.len(),
        bad_at(secrets, guesses, dict, i),
        forall|m: int| j <= m < i ==> !bad_at(secrets, guesses, dict, m),
    ensures
        first_bad(secrets, guesses, dict, j) == i,
    decreases i - j,
{
    if j < i {
        lemma_first_bad_at(secrets, guesses, dict, j + 1, i);
    }
}

proof fn lemma_first_bad_none(
    secrets: Seq<Seq<char>>,
    guesses: Seq<Seq<char>>,
    dict: Set<Seq<char>>,
    j: int,
)
    requires
        0 <= j <= secrets.len(),
        forall|m: int| j <= m < secrets.len() ==> !bad_at(secrets, guesses, dict, m),
    ensures
        first_bad(secrets, guesses, dict, j) == secrets.len(),
    decreases secrets.len() - j,
{
    if j < secrets.len() {
        lemma_first_bad_none(secrets, guesses, dict, j + 1);
    }
}

proof fn lemma_first_bad_range(
    secrets: Seq<Seq<char>>,
    guesses: Seq<Seq<char>>,
    dict: Set<Seq<char>>,
    j: int,
)
    requires
        0 <= j <= secrets.len(),
    ensures
        j <= first_bad(secrets, guesses, dict, j) <= secrets.len(),
    decreases secrets.len() - j,
{
    if j < secrets.len() && !bad_at(secrets, guesses, dict, j) {
        lemma_first_bad_range(secrets, guesses, dict, j + 1);
    }
}

/// The first ungradable index lies between zero and the word count.
pub proof fn lemma_first_bad_bounds(
    secrets: Seq<Seq<char>>,
    guesses: Seq<Seq<char>>,
    dict: Set<Seq<char>>,
)
    ensures
        0 <= first_bad(secrets, guesses, dict, 0) <= secrets.len(),
{
    lemma_first_bad_range(secrets, guesses, dict, 0);
}

/// Grades a guessed phrase against a secret phrase, one aligned word at a
/// time, in order. Fails with `WordCountMismatch` if the word counts differ.
/// Validation and grading are interleaved: the first guess word that is
/// neither the secret word nor in the dictionary stops grading with
/// `UnknownWord`; the first remaining pair of unequal character counts stops
/// it with `LengthMismatch`.
pub fn grade_phrase(
    secret_words: &Vec<String>,
    guess_words: &Vec<String>,
    dict: &WordList,
) -> (r: Result<Vec<Vec<Grade>>, GradingError>)
    requires
        dict.wf(),
    ensures
        secret_words@.len() != guess_words@.len() ==> r == Err::<Vec<Vec<Grade>>, GradingError>(
            GradingError::WordCountMismatch(
                (secret_words@.len() as usize),
                (guess_words@.len() as usize),
            ),
        ),
        secret_words@.len() == guess_words@.len() ==> {
            let sv = secret_words.deep_view();
            let gv = guess_words.deep_view();
            let b = first_bad(sv, gv, dict@, 0);
            &&& (b == sv.len() <==> r is Ok)
            &&& (r matches Ok(g) ==> g@.len() == sv.len() && forall|w: int|
                0 <= w < sv.len() ==> (#[trigger] g@[w])@ == spec_grade(sv[w], gv[w]))
            &&& (b < sv.len() && unknown_at(sv, gv, dict@, b) ==> (r matches Err(e)
                && e matches GradingError::UnknownWord(u) && u@ == gv[b]))
            &&& (b < sv.len() && !unknown_at(sv, gv, dict@, b) ==> r == Err::<
                Vec<Vec<Grade>>,
                GradingError,
            >(GradingError::LengthMismatch(
                (sv[b].len() as usize),
                (gv[b].len() as usize),
            )))
        },
{
    let n = secret_words.len();
    if guess_words.len() != n {
        return Err(GradingError::WordCountMismatch(n, guess_words.len()));
    }
    let ghost sv = secret_words.deep_view();
    let ghost gv = guess_words.deep_view();
    let mut out: Vec<Vec<Grade>> = Vec::new();
    let mut i: usize = 0;
    while i < n
        invariant
            i <= n,
            n == secret_words@.len(),
            n == guess_words@.len(),
            sv == secret_words.deep_view(),
            gv == guess_words.deep_view(),
            sv.len() == n,
            gv.len() == n,
            dict.wf(),
            forall|j: int| 0 <= j < i ==> !bad_at(sv, gv, dict@, j),
            out@.len() == i,
            forall|w: int| 0 <= w < i ==> (#[trigger] out@[w])@ == spec_grade(sv[w], gv[w]),
        decreases n - i,
    {
        let sw = &secret_words[i];
        let gw = &guess_words[i];
        proof {
            assert(sw@ == sv[i as int]);
            assert(gw@ == gv[i as int]);
        }
        let same = str_eq(gw.as_str(), sw.as_str());
        if !same && !dict.contains(gw.as_str()) {
            proof {
                assert(unknown_at(sv, gv, dict@, i as int));
                lemma_first_bad_at(sv, gv, dict@, 0, i as int);
            }
            return Err(GradingError::UnknownWord(gw.clone()));
        }
        match grade(sw.as_str(), gw.as_str()) {
            Ok(g) => {
                out.push(g);
                proof {
                    assert(sw@.len() == gw@.len());
                    assert(!bad_at(sv, gv, dict@, i as int));
                }
            },
            Err(e) => {
                proof {
                    assert(sw@.len() != gw@.len());
                    assert(!unknown_at(sv, gv, dict@, i as int));
                    assert(bad_at(sv, gv, dict@, i as int));
                    lemma_first_bad_at(sv, gv, dict@, 0, i as int);
                }
                return Err(e);
            },
        }
        i += 1;
    }
    proof {
        lemma_first_bad_none(sv, gv, dict@, 0);
    }
    Ok(out)
}

} // verus!
