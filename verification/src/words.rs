//! The word list: an immutable dictionary used to accept guessed words that
//! differ from the secret word.
//!
//! Words are partitioned by character count, so membership is decided by one
//! bucket scan. The list is loaded once at process start and never changes.

use vstd::prelude::*;
use vstd::string::StrSliceExecFns;
use crate::chars::str_eq;

verus! {

/// The set of character sequences held by a sequence of words.
pub open spec fn word_set(ws: Seq<String>) -> Set<Seq<char>> {
    Set::new(|w: Seq<char>| exists|i: int| 0 <= i < ws.len() && (#[trigger] ws[i])@ == w)
}

/// Appends empty buckets until index `l` exists; existing buckets keep their
/// places and contents.
fn grow_buckets(buckets: &mut Vec<Vec<String>>, l: usize)
    ensures
        final(buckets)@.len() > l,
        old(buckets)@.len() <= final(buckets)@.len(),
        forall|k: int| 0 <= k < old(buckets)@.len()
            ==> #[trigger] final(buckets)@[k] == old(buckets)@[k],
        forall|k: int| old(buckets)@.len() <= k < final(buckets)@.len()
            ==> (#[trigger] final(buckets)@[k])@.len() == 0,
{
    while buckets.len() <= l
        invariant
            old(buckets)@.len() <= buckets@.len(),
            forall|k: int| 0 <= k < old(buckets)@.len()
                ==> #[trigger] buckets@[k] == old(buckets)@[k],
            forall|k: int| old(buckets)@.len() <= k < buckets@.len()
                ==> (#[trigger] buckets@[k])@.len() == 0,
        decreases l + 1 - buckets@.len(),
    {
        buckets.push(Vec::new());
    }
}

/// An immutable dictionary of words, partitioned by character count.
/// Its view is the set of character sequences it holds.
pub struct WordList {
    buckets: Vec<Vec<String>>,
}

impl View for WordList {
    type V = Set<Seq<char>>;

    closed spec fn view(&self) -> Set<Seq<char>> {
        Set::new(
            |w: Seq<char>|
                exists|l: int, k: int|
                    0 <= l < self.buckets@.len() && 0 <= k < self.buckets@[l]@.len() && (
                    #[trigger] self.buckets@[l]@[k])@ == w,
        )
    }
}

impl WordList {
    /// Every word sits in the bucket matching its character count.
    pub closed spec fn wf(&self) -> bool {
        forall|l: int, k: int|
            0 <= l < self.buckets@.len() && 0 <= k < self.buckets@[l]@.len() ==> (
            #[trigger] self.buckets@[l]@[k])@.len() == l
    }

    /// Builds the dictionary from a list of words.
    #[verifier::rlimit(100)]
    pub fn new(words: Vec<String>) -> (wl: WordList)
        ensures
            wl.wf(),
            wl@ == word_set(words@),
    {
        let n = words.len();
        let mut buckets: Vec<Vec<String>> = Vec::new();
        let mut i: usize = 0;
        while i < n
            invariant
                i <= n,
                n == words@.len(),
                forall|l: int, k: int|
                    0 <= l < buckets@.len() && 0 <= k < buckets@[l]@.len() ==> (
                    #[trigger] buckets@[l]@[k])@.len() == l,
                forall|l: int, k: int|
                    #![trigger buckets@[l]@[k]]
                    0 <= l < buckets@.len() && 0 <= k < buckets@[l]@.len()
                        ==> exists|j: int|
                            0 <= j < i && (#[trigger] words@[j])@ == (buckets@[l]@[k])@,
                forall|j: int|
                    0 <= j < i
                        ==> (#[trigger] words@[j])@.len() < buckets@.len() && exists|k: int|
                            0 <= k < buckets@[words@[j]@.len() as int]@.len()
                                && (buckets@[words@[j]@.len() as int]@[k])@ == words@[j]@,
            decreases n - i,
        {
            let w = words[i].clone();
            let l = w.as_str().unicode_len();
            let ghost bpre = buckets@;
            grow_buckets(&mut buckets, l);
            proof {
                assert forall|l2: int, k: int|
                    #![trigger buckets@[l2]@[k]]
                    0 <= l2 < buckets@.len() && 0 <= k < buckets@[l2]@.len()
                    implies ((buckets@[l2]@[k])@.len() == l2 && exists|j: int|
                        0 <= j < i && (#[trigger] words@[j])@ == (buckets@[l2]@[k])@) by {
                    assert(l2 < bpre.len());
                    assert(buckets@[l2] == bpre[l2]);
                }
                assert forall|j: int| 0 <= j < i
                    implies (#[trigger] words@[j])@.len() < buckets@.len() && exists|k: int|
                        0 <= k < buckets@[words@[j]@.len() as int]@.len()
                            && (buckets@[words@[j]@.len() as int]@[k])@ == words@[j]@ by {
                    assert(buckets@[words@[j]@.len() as int] == bpre[words@[j]@.len() as int]);
                }
            }
            let ghost b0 = buckets@;
            let ghost wv = w@;
            buckets[l].push(w);
            proof {
                let lw = l as int;
                let newk = b0[lw]@.len() as int;
                assert(buckets@.len() == b0.len());
                assert(buckets@[lw]@.len() == b0[lw]@.len() + 1);
                assert((buckets@[lw]@[newk])@ == wv);
                assert(forall|kk: int| 0 <= kk < newk ==> buckets@[lw]@[kk] == b0[lw]@[kk]);
                assert(forall|l2: int| 0 <= l2 < b0.len() && l2 != lw
                    ==> buckets@[l2] == b0[l2]);
                assert(wv == words@[i as int]@);
                assert forall|l2: int, k: int|
                    0 <= l2 < buckets@.len() && 0 <= k < buckets@[l2]@.len()
                    implies (#[trigger] buckets@[l2]@[k])@.len() == l2 by {
                    if l2 == lw && k == newk {
                    } else if l2 == lw {
                        assert(buckets@[l2]@[k] == b0[l2]@[k]);
                    } else {
                        assert(buckets@[l2] == b0[l2]);
                    }
                }
                assert forall|l2: int, k: int|
                    #![trigger buckets@[l2]@[k]]
                    0 <= l2 < buckets@.len() && 0 <= k < buckets@[l2]@.len()
                    implies exists|j: int|
                        0 <= j < i + 1 && (#[trigger] words@[j])@ == (buckets@[l2]@[k])@ by {
                    if l2 == lw && k == newk {
                        assert(words@[i as int]@ == (buckets@[l2]@[k])@);
                    } else if l2 == lw {
                        assert(buckets@[l2]@[k] == b0[l2]@[k]);
                        let j = choose|j: int|
                            0 <= j < i && (#[trigger] words@[j])@ == (b0[l2]@[k])@;
                        assert(words@[j]@ == (buckets@[l2]@[k])@);
                    } else {
                        assert(buckets@[l2] == b0[l2]);
                        let j = choose|j: int|
                            0 <= j < i && (#[trigger] words@[j])@ == (b0[l2]@[k])@;
                        assert(words@[j]@ == (buckets@[l2]@[k])@);
                    }
                }
                assert forall|j: int| 0 <= j < i + 1
                    implies (#[trigger] words@[j])@.len() < buckets@.len() && exists|k: int|
                        0 <= k < buckets@[words@[j]@.len() as int]@.len()
                            && (buckets@[words@[j]@.len() as int]@[k])@ == words@[j]@ by {
                    let jl = words@[j]@.len() as int;
                    if j == i {
                        assert((buckets@[lw]@[newk])@ == words@[j]@);
                    } else if jl == lw {
                        let k = choose|k: int|
                            0 <= k < b0[jl]@.len() && (b0[jl]@[k])@ == words@[j]@;
                        assert((buckets@[jl]@[k])@ == words@[j]@);
                    } else {
                        assert(buckets@[jl] == b0[jl]);
                        let k = choose|k: int|
                            0 <= k < b0[jl]@.len() && (b0[jl]@[k])@ == words@[j]@;
                        assert((buckets@[jl]@[k])@ == words@[j]@);
                    }
                }
            }
            i += 1;
        }
        let wl = WordList { buckets };
        proof {
            assert forall|w: Seq<char>| #[trigger] wl@.contains(w) implies word_set(
                words@,
            ).contains(w) by {
                let (l, k): (int, int) = choose|l: int, k: int|
                    0 <= l < wl.buckets@.len() && 0 <= k < wl.buckets@[l]@.len() && (
                    #[trigger] wl.buckets@[l]@[k])@ == w;
                let j = choose|j: int|
                    0 <= j < n && (#[trigger] words@[j])@ == (wl.buckets@[l]@[k])@;
                assert(words@[j]@ == w);
            }
            assert forall|w: Seq<char>| #[trigger] word_set(words@).contains(w) implies wl@.contains(
                w,
            ) by {
                let j = choose|j: int| 0 <= j < words@.len() && (#[trigger] words@[j])@ == w;
                let jl = words@[j]@.len() as int;
                let k = choose|k: int|
                    0 <= k < wl.buckets@[jl]@.len() && (wl.buckets@[jl]@[k])@ == words@[j]@;
                assert(0 <= jl < wl.buckets@.len() && 0 <= k < wl.buckets@[jl]@.len()
                    && (wl.buckets@[jl]@[k])@ == w);
            }
            assert(wl@ =~= word_set(words@));
        }
        wl
    }

    /// Whether the dictionary holds this word.
    pub fn contains(&self, w: &str) -> (r: bool)
        requires
            self.wf(),
        ensures
            r == self@.contains(w@),
    {
        let l = w.unicode_len();
        if l >= self.buckets.len() {
            proof {
                assert forall|l2: int, k: int|
                    0 <= l2 < self.buckets@.len() && 0 <= k < self.buckets@[l2]@.len()
                    implies (#[trigger] self.buckets@[l2]@[k])@ != w@ by {
                    assert(self.buckets@[l2]@[k]@.len() == l2);
                }
            }
            return false;
        }
        let bucket = &self.buckets[l];
        let mut k: usize = 0;
        while k < bucket.len()
            invariant
                k <= bucket@.len(),
                bucket == self.buckets@[l as int],
                l < self.buckets@.len(),
                l == w@.len(),
                self.wf(),
                forall|kk: int| 0 <= kk < k ==> (#[trigger] bucket@[kk])@ != w@,
            decreases bucket@.len() - k,
        {
            if str_eq(w, bucket[k].as_str()) {
                proof {
                    let li = l as int;
                    let ki = k as int;
                    assert(0 <= li && li < self.buckets@.len() && 0 <= ki && ki
                        < self.buckets@[li]@.len() && (self.buckets@[li]@[ki])@ == w@);
                }
                return true;
            }
            k += 1;
        }
        proof {
            assert forall|l2: int, kk: int|
                0 <= l2 < self.buckets@.len() && 0 <= kk < self.buckets@[l2]@.len()
                implies (#[trigger] self.buckets@[l2]@[kk])@ != w@ by {
                if l2 == l as int {
                    assert(bucket@[kk]@ != w@);
                } else {
                    assert(self.buckets@[l2]@[kk]@.len() == l2);
                }
            }
        }
        false
    }
}

} // verus!
