//! The phrase selector: normalizes and randomly selects one candidate string
//! from an externally supplied list, splitting it into secret words.
//!
//! A candidate is eligible iff its raw text holds at least one ASCII letter
//! or digit; the check runs on the raw string, before normalization, so any
//! candidate with a letter or digit survives the filter. Normalization keeps
//! `a`-`z`, `0`-`9` and whitespace, lowercases `A`-`Z`, and drops every other
//! character with no substitution. The normalized text is split on
//! whitespace into the secret words.

use vstd::prelude::*;
use crate::chars;
use crate::chars::{spec_is_word_char, spec_is_upper, spec_is_alnum, spec_is_space, spec_lower};
use crate::chars::{str_chars, chars_to_string};
use crate::errors::AppError;
use vstd::string::StrSliceExecFns;

verus! {

/// The normalized form of a character sequence: word characters and
/// whitespace are kept, uppercase ASCII letters are lowercased, and every
/// other character is dropped.
pub open spec fn spec_normalize(s: Seq<char>) -> Seq<char>
    decreases s.len(),
{
    if s.len() == 0 {
        Seq::empty()
    } else {
        let c = s[0];
        let rest = spec_normalize(s.drop_first());
        if spec_is_word_char(c) || spec_is_space(c) {
            seq![c] + rest
        } else if spec_is_upper(c) {
            seq![spec_lower(c)] + rest
        } else {
            rest
        }
    }
}

/// The words of a character sequence: the maximal runs of non-whitespace
/// characters, in order.
pub open spec fn spec_split(s: Seq<char>) -> Seq<Seq<char>>
    decreases s.len(),
{
    if s.len() == 0 {
        Seq::empty()
    } else if spec_is_space(s[0]) {
        spec_split(s.drop_first())
    } else {
        let r = spec_split(s.drop_first());
        if s.len() > 1 && !spec_is_space(s[1]) {
            seq![seq![s[0]] + r[0]] + r.drop_first()
        } else {
            seq![seq![s[0]]] + r
        }
    }
}

/// Whether the sequence holds at least one ASCII letter or digit.
pub open spec fn spec_has_alnum(s: Seq<char>) -> bool {
    exists|i: int| 0 <= i < s.len() && spec_is_alnum(s[i])
}

/// The words a raw candidate string yields: normalize, then split.
pub open spec fn spec_candidate_words(s: Seq<char>) -> Seq<Seq<char>> {
    spec_split(spec_normalize(s))
}

// --- properties of normalization and splitting ---

/// Every character of a normalized sequence is a word character or whitespace.
pub proof fn lemma_normalize_chars(s: Seq<char>)
    ensures
        forall|i: int| 0 <= i < spec_normalize(s).len()
            ==> spec_is_word_char(#[trigger] spec_normalize(s)[i])
                || spec_is_space(spec_normalize(s)[i]),
    decreases s.len(),
{
    if s.len() > 0 {
        lemma_normalize_chars(s.drop_first());
        let rest = spec_normalize(s.drop_first());
        assert forall|i: int| 0 <= i < spec_normalize(s).len()
            implies spec_is_word_char(#[trigger] spec_normalize(s)[i])
                || spec_is_space(spec_normalize(s)[i]) by {
            let c = s[0];
            if spec_is_word_char(c) || spec_is_space(c) || spec_is_upper(c) {
                if i > 0 {
                    assert(spec_normalize(s)[i] == rest[i - 1]);
                }
            } else {
                assert(spec_normalize(s)[i] == rest[i]);
            }
        }
    }
}

/// A sequence with an ASCII letter or digit normalizes to a sequence with at
/// least one word character.
pub proof fn lemma_normalize_keeps_alnum(s: Seq<char>)
    requires
        spec_has_alnum(s),
    ensures
        exists|i: int| 0 <= i < spec_normalize(s).len()
            && spec_is_word_char(#[trigger] spec_normalize(s)[i]),
    decreases s.len(),
{
    let w = choose|i: int| 0 <= i < s.len() && spec_is_alnum(s[i]);
    let c = s[w];
    if w == 0 {
        if spec_is_word_char(c) {
            assert(spec_normalize(s)[0] == c);
        } else {
            chars::lemma_lower_of_upper_is_word_char(c);
            assert(spec_normalize(s)[0] == spec_lower(c));
        }
    } else {
        assert(s.drop_first()[w - 1] == c);
        assert(spec_has_alnum(s.drop_first()));
        lemma_normalize_keeps_alnum(s.drop_first());
        let rest = spec_normalize(s.drop_first());
        let j = choose|i: int| 0 <= i < rest.len() && spec_is_word_char(rest[i]);
        let c0 = s[0];
        if spec_is_word_char(c0) || spec_is_space(c0) || spec_is_upper(c0) {
            assert(spec_normalize(s)[j + 1] == rest[j]);
        } else {
            assert(spec_normalize(s)[j] == rest[j]);
        }
    }
}

/// Every word of a split is non-empty, and every character of every word is a
/// non-whitespace character of the input.
pub proof fn lemma_split_words_shape(s: Seq<char>)
    ensures
        forall|w: int| 0 <= w < spec_split(s).len() ==> (#[trigger] spec_split(s)[w]).len() > 0,
        forall|w: int, j: int|
            #![trigger spec_split(s)[w][j]]
            0 <= w < spec_split(s).len() && 0 <= j < spec_split(s)[w].len()
                ==> (exists|i: int| 0 <= i < s.len() && s[i] == spec_split(s)[w][j]
                        && !spec_is_space(s[i])),
    decreases s.len(),
{
    if s.len() == 0 {
    } else if spec_is_space(s[0]) {
        lemma_split_words_shape(s.drop_first());
        assert forall|w: int, j: int|
            #![trigger spec_split(s)[w][j]]
            0 <= w < spec_split(s).len() && 0 <= j < spec_split(s)[w].len()
            implies (exists|i: int| 0 <= i < s.len() && s[i] == spec_split(s)[w][j]
                        && !spec_is_space(s[i])) by {
            let r = s.drop_first();
            let i0 = choose|i: int| 0 <= i < r.len() && r[i] == spec_split(r)[w][j]
                && !spec_is_space(r[i]);
            assert(s[i0 + 1] == r[i0]);
        }
    } else {
        lemma_split_words_shape(s.drop_first());
        let r = spec_split(s.drop_first());
        assert forall|w: int, j: int|
            #![trigger spec_split(s)[w][j]]
            0 <= w < spec_split(s).len() && 0 <= j < spec_split(s)[w].len()
            implies (exists|i: int| 0 <= i < s.len() && s[i] == spec_split(s)[w][j]
                        && !spec_is_space(s[i])) by {
            let rr = s.drop_first();
            if s.len() > 1 && !spec_is_space(s[1]) {
                if w == 0 && j == 0 {
                    assert(s[0] == spec_split(s)[0][0]);
                } else if w == 0 {
                    assert(spec_split(s)[0][j] == r[0][j - 1]);
                    let i0 = choose|i: int| 0 <= i < rr.len() && rr[i] == r[0][j - 1]
                        && !spec_is_space(rr[i]);
                    assert(s[i0 + 1] == rr[i0]);
                } else {
                    assert(spec_split(s)[w] == r[w]);
                    let i0 = choose|i: int| 0 <= i < rr.len() && rr[i] == r[w][j]
                        && !spec_is_space(rr[i]);
                    assert(s[i0 + 1] == rr[i0]);
                }
            } else {
                if w == 0 {
                    assert(spec_split(s)[0] == seq![s[0]]);
                    assert(s[0] == spec_split(s)[0][0]);
                } else {
                    assert(spec_split(s)[w] == r[w - 1]);
                    let i0 = choose|i: int| 0 <= i < rr.len() && rr[i] == r[w - 1][j]
                        && !spec_is_space(rr[i]);
                    assert(s[i0 + 1] == rr[i0]);
                }
            }
        }
    }
}

/// A sequence with a non-whitespace character splits into at least one word.
pub proof fn lemma_split_nonempty(s: Seq<char>)
    requires
        exists|i: int| 0 <= i < s.len() && !spec_is_space(s[i]),
    ensures
        spec_split(s).len() > 0,
    decreases s.len(),
{
    let w = choose|i: int| 0 <= i < s.len() && !spec_is_space(s[i]);
    if spec_is_space(s[0]) {
        assert(s.drop_first()[w - 1] == s[w]);
        lemma_split_nonempty(s.drop_first());
    }
}

/// Every word a candidate yields matches `^[a-z0-9]+$`: it is non-empty and
/// made only of lowercase letters and digits.
pub proof fn lemma_candidate_words_valid(s: Seq<char>)
    ensures
        forall|w: int| 0 <= w < spec_candidate_words(s).len()
            ==> (#[trigger] spec_candidate_words(s)[w]).len() > 0,
        forall|w: int, j: int|
            #![trigger spec_candidate_words(s)[w][j]]
            0 <= w < spec_candidate_words(s).len()
                && 0 <= j < spec_candidate_words(s)[w].len()
                ==> spec_is_word_char(spec_candidate_words(s)[w][j]),
        spec_has_alnum(s) ==> spec_candidate_words(s).len() > 0,
{
    let n = spec_normalize(s);
    lemma_normalize_chars(s);
    lemma_split_words_shape(n);
    assert forall|w: int, j: int|
        #![trigger spec_candidate_words(s)[w][j]]
        0 <= w < spec_candidate_words(s).len()
            && 0 <= j < spec_candidate_words(s)[w].len()
        implies spec_is_word_char(spec_candidate_words(s)[w][j]) by {
        let i0 = choose|i: int| 0 <= i < n.len() && n[i] == spec_split(n)[w][j]
            && !spec_is_space(n[i]);
        assert(spec_is_word_char(n[i0]) || spec_is_space(n[i0]));
    }
    if spec_has_alnum(s) {
        lemma_normalize_keeps_alnum(s);
        let i0 = choose|i: int| 0 <= i < n.len() && spec_is_word_char(n[i]);
        assert(0 <= i0 < n.len() && !spec_is_space(n[i0]));
        lemma_split_nonempty(n);
    }
}

// --- executable code ---

/// Whether the raw string holds at least one ASCII letter or digit; the
/// candidate pre-filter.
pub fn has_alnum(s: &str) -> (r: bool)
    ensures
        r == spec_has_alnum(s@),
{
    let v = str_chars(s);
    let n = v.len();
    let mut i: usize = 0;
    while i < n
        invariant
            i <= n,
            n == v@.len(),
            v@ == s@,
            forall|j: int| 0 <= j < i ==> !spec_is_alnum(s@[j]),
        decreases n - i,
    {
        if chars::is_alnum(v[i]) {
            return true;
        }
        i += 1;
    }
    false
}

/// The normalized form of a character vector.
fn normalize_chars(v: &Vec<char>) -> (r: Vec<char>)
    ensures
        r@ == spec_normalize(v@),
{
    let n = v.len();
    let mut r: Vec<char> = Vec::new();
    let mut i: usize = 0;
    proof {
        assert(v@.skip(0) =~= v@);
        assert(r@ + spec_normalize(v@) =~= spec_normalize(v@));
    }
    while i < n
        invariant
            i <= n,
            n == v@.len(),
            spec_normalize(v@) =~= r@ + spec_normalize(v@.skip(i as int)),
        decreases n - i,
    {
        let ghost r0 = r@;
        let c = v[i];
        proof {
            assert(v@.skip(i as int).drop_first() =~= v@.skip(i + 1));
        }
        if chars::is_word_char(c) || chars::is_space(c) {
            r.push(c);
            proof {
                let rest = spec_normalize(v@.skip(i + 1));
                assert(spec_normalize(v@.skip(i as int)) =~= seq![c] + rest);
                assert(r@ + rest =~= r0 + (seq![c] + rest));
            }
        } else if chars::is_upper(c) {
            let l = chars::lower(c);
            r.push(l);
            proof {
                let rest = spec_normalize(v@.skip(i + 1));
                assert(spec_normalize(v@.skip(i as int)) =~= seq![l] + rest);
                assert(r@ + rest =~= r0 + (seq![l] + rest));
            }
        }
        i += 1;
    }
    proof {
        assert(v@.skip(n as int) =~= Seq::<char>::empty());
        assert(r@ + spec_normalize(v@.skip(n as int)) =~= r@);
    }
    r
}

/// How a partly built word combines with the split of the remaining input:
/// an empty buffer contributes nothing; a non-empty buffer either extends the
/// first remaining word (input goes on without a break) or stands alone.
pub open spec fn attach(cur: Seq<char>, s: Seq<char>) -> Seq<Seq<char>> {
    if cur.len() == 0 {
        spec_split(s)
    } else if s.len() > 0 && !spec_is_space(s[0]) {
        seq![cur + spec_split(s)[0]] + spec_split(s).drop_first()
    } else {
        seq![cur] + spec_split(s)
    }
}

proof fn lemma_attach_push(cur: Seq<char>, s: Seq<char>)
    requires
        s.len() > 0,
        !spec_is_space(s[0]),
    ensures
        attach(cur, s) =~~= attach(cur.push(s[0]), s.drop_first()),
{
    let r = spec_split(s.drop_first());
    if s.len() > 1 && !spec_is_space(s[1]) {
        assert(spec_split(s) =~= seq![seq![s[0]] + r[0]] + r.drop_first());
        assert(cur + (seq![s[0]] + r[0]) =~= cur.push(s[0]) + r[0]);
    } else {
        assert(spec_split(s) =~= seq![seq![s[0]]] + r);
        assert(cur + seq![s[0]] =~= cur.push(s[0]));
    }
}

/// The words of a character vector: maximal whitespace-free runs.
pub fn split_chars(v: &Vec<char>) -> (ws: Vec<Vec<char>>)
    ensures
        ws.deep_view() == spec_split(v@),
{
    let n = v.len();
    let mut ws: Vec<Vec<char>> = Vec::new();
    let mut cur: Vec<char> = Vec::new();
    let mut i: usize = 0;
    proof {
        assert(v@.skip(0) =~= v@);
        assert(ws.deep_view() + attach(cur@, v@) =~~= spec_split(v@));
    }
    while i < n
        invariant
            i <= n,
            n == v@.len(),
            spec_split(v@) =~~= ws.deep_view() + attach(cur@, v@.skip(i as int)),
        decreases n - i,
    {
        let ghost ws0 = ws.deep_view();
        let ghost cur0 = cur@;
        let c = v[i];
        proof {
            assert(v@.skip(i as int).drop_first() =~= v@.skip(i + 1));
            assert(v@.skip(i as int)[0] == v@[i as int]);
        }
        if chars::is_space(c) {
            if cur.len() > 0 {
                ws.push(cur);
                cur = Vec::new();
                proof {
                    assert(attach(cur0, v@.skip(i as int)) =~~= seq![cur0] + spec_split(
                        v@.skip(i as int),
                    ));
                    assert(spec_split(v@.skip(i as int)) =~~= spec_split(v@.skip(i + 1)));
                    assert(ws.deep_view() =~~= ws0.push(cur0));
                    assert(ws.deep_view() + attach(cur@, v@.skip(i + 1)) =~~= ws0 + (seq![cur0]
                        + spec_split(v@.skip(i + 1))));
                }
            } else {
                proof {
                    assert(spec_split(v@.skip(i as int)) =~~= spec_split(v@.skip(i + 1)));
                }
            }
        } else {
            proof {
                lemma_attach_push(cur@, v@.skip(i as int));
            }
            cur.push(c);
            proof {
                assert(cur@ == cur0.push(c));
            }
        }
        i += 1;
    }
    proof {
        assert(v@.skip(n as int) =~= Seq::<char>::empty());
    }
    if cur.len() > 0 {
        let ghost ws0 = ws.deep_view();
        let ghost cur0 = cur@;
        ws.push(cur);
        proof {
            assert(attach(cur0, Seq::<char>::empty()) =~~= seq![cur0]);
            assert(ws.deep_view() =~~= ws0.push(cur0));
            assert(ws.deep_view() =~~= ws0 + seq![cur0]);
        }
    } else {
        proof {
            assert(ws.deep_view() + attach(cur@, Seq::<char>::empty()) =~~= ws.deep_view());
        }
    }
    ws
}

/// The secret words a raw candidate yields: normalize, then split, each word
/// as a string.
pub fn candidate_words(s: &str) -> (ws: Vec<String>)
    ensures
        ws.deep_view() == spec_candidate_words(s@),
{
    let v = str_chars(s);
    let norm = normalize_chars(&v);
    let parts = split_chars(&norm);
    strings_of(&parts)
}

/// The words of a raw guess string, split on whitespace and not normalized.
pub fn split_guess(s: &str) -> (ws: Vec<String>)
    ensures
        ws.deep_view() == spec_split(s@),
{
    let v = str_chars(s);
    let parts = split_chars(&v);
    strings_of(&parts)
}

/// Each character vector as a string, in order.
fn strings_of(parts: &Vec<Vec<char>>) -> (ws: Vec<String>)
    ensures
        ws.deep_view() == parts.deep_view(),
{
    let mut ws: Vec<String> = Vec::new();
    let mut i: usize = 0;
    while i < parts.len()
        invariant
            i <= parts@.len(),
            ws.deep_view() =~~= parts.deep_view().subrange(0, i as int),
        decreases parts@.len() - i,
    {
        let ghost ws0 = ws.deep_view();
        let word = chars_to_string(&parts[i]);
        proof {
            assert(word@ == parts.deep_view()[i as int]);
        }
        let ghost wsv0 = ws@;
        ws.push(word);
        proof {
            assert(ws@ == wsv0.push(word));
            assert(ws@.len() == wsv0.len() + 1);
            assert(ws0.len() == wsv0.len());
            assert(ws0.len() == i as int);
            assert(ws.deep_view().len() == ws@.len());
            assert(ws.deep_view().len() == i + 1);
            assert forall|k: int| 0 <= k < i + 1
                implies ws.deep_view()[k] == parts.deep_view().subrange(0, i + 1)[k] by {
                assert(ws.deep_view()[k] == ws@[k].deep_view());
                if k < i {
                    assert(ws@[k] == wsv0[k]);
                    assert(ws0[k] == wsv0[k].deep_view());
                    assert(ws0[k] == parts.deep_view()[k]);
                } else {
                    assert(ws@[k] == word);
                }
            }
            assert(ws.deep_view() =~~= parts.deep_view().subrange(0, i + 1));
        }
        i += 1;
    }
    proof {
        assert(ws.deep_view() =~~= parts.deep_view());
    }
    ws
}

/// Relies on `rand::random_range` over `0..n`: returns a uniformly chosen
/// value of the non-empty range, and panics only on an empty range, which
/// the precondition rules out.
#[verifier::external_body]
fn pick_index(n: usize) -> (r: usize)
    requires
        n > 0,
    ensures
        r < n,
{
    rand::random_range(0..n)
}

/// Selects one eligible candidate at random, and returns its secret words
/// together with their character counts. Fails with `NoCandidates` iff no
/// candidate holds an ASCII letter or digit.
pub fn select(candidates: &Vec<String>) -> (r: Result<(Vec<String>, Vec<usize>), AppError>)
    ensures
        (forall|i: int| 0 <= i < candidates@.len()
            ==> !spec_has_alnum(#[trigger] candidates@[i]@)) <==> (r == Err::<
            (Vec<String>, Vec<usize>),
            AppError,
        >(AppError::NoCandidates)),
        (exists|i: int| 0 <= i < candidates@.len() && #[trigger] spec_has_alnum(candidates@[i]@))
            ==> r is Ok,
        r matches Ok(p) ==> exists|i: int|
            {
                &&& 0 <= i < candidates@.len()
                &&& spec_has_alnum(#[trigger] candidates@[i]@)
                &&& p.0.deep_view() == spec_candidate_words(candidates@[i]@)
                &&& p.1@.len() == p.0@.len()
                &&& forall|w: int| 0 <= w < p.1@.len()
                    ==> #[trigger] p.1@[w] == p.0.deep_view()[w].len()
            },
        r matches Ok(p) ==> p.0@.len() > 0,
        r matches Ok(p) ==> forall|w: int, j: int|
            #![trigger p.0.deep_view()[w][j]]
            0 <= w < p.0.deep_view().len() && 0 <= j < p.0.deep_view()[w].len()
                ==> spec_is_word_char(p.0.deep_view()[w][j]),
        r matches Ok(p) ==> forall|w: int| 0 <= w < p.0.deep_view().len()
            ==> (#[trigger] p.0.deep_view()[w]).len() > 0,
{
    let mut eligible: Vec<usize> = Vec::new();
    let n = candidates.len();
    let mut i: usize = 0;
    while i < n
        invariant
            i <= n,
            n == candidates@.len(),
            forall|k: int| 0 <= k < eligible@.len()
                ==> #[trigger] eligible@[k] < i && spec_has_alnum(
                    candidates@[eligible@[k] as int]@,
                ),
            forall|j: int| 0 <= j < i && spec_has_alnum(#[trigger] candidates@[j]@)
                ==> eligible@.contains(j as usize),
        decreases n - i,
    {
        let ghost eligible0 = eligible@;
        if has_alnum(candidates[i].as_str()) {
            eligible.push(i);
        }
        proof {
            assert forall|j: int| 0 <= j < i + 1 && spec_has_alnum(#[trigger] candidates@[j]@)
                implies eligible@.contains(j as usize) by {
                if j == i {
                    assert(eligible@[eligible@.len() - 1] == (i as usize));
                } else {
                    let k = choose|k: int| 0 <= k < eligible0.len() && eligible0[k] == (
                    j as usize);
                    assert(eligible@[k] == (j as usize));
                }
            }
        }
        i += 1;
    }
    if eligible.len() == 0 {
        proof {
            assert forall|j: int| 0 <= j < candidates@.len()
                implies !spec_has_alnum(#[trigger] candidates@[j]@) by {
                if spec_has_alnum(candidates@[j]@) {
                    assert(eligible@.contains(j as usize));
                }
            }
        }
        return Err(AppError::NoCandidates);
    }
    let pick = pick_index(eligible.len());
    let chosen = eligible[pick];
    let ghost wit = chosen as int;
    let words = candidate_words(candidates[chosen].as_str());
    proof {
        lemma_candidate_words_valid(candidates@[wit]@);
    }
    let mut lens: Vec<usize> = Vec::new();
    let mut w: usize = 0;
    while w < words.len()
        invariant
            w <= words@.len(),
            lens@.len() == w,
            forall|k: int| 0 <= k < w ==> #[trigger] lens@[k] == words.deep_view()[k].len(),
        decreases words@.len() - w,
    {
        let word_len = words[w].as_str().unicode_len();
        lens.push(word_len);
        w += 1;
    }
    Ok((words, lens))
}

} // verus!
