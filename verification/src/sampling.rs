//! Negative sampling.
//!
//! Candidates for negative updates are drawn from the encoded corpus
//! itself, so a word's chance of being drawn is proportional to its
//! number of occurrences. The draw is random; the filtering of the draw
//! against the true target id is verified exactly.

use vstd::prelude::*;
use rand::seq::SliceRandom;
use crate::params::CBOWParams;

verus! {

/// Relies on `rand::seq::SliceRandom::choose_multiple` with `thread_rng`:
/// it draws `min(amount, len)` elements of the slice at distinct
/// positions, so every returned value is an element of the slice. Which
/// elements come back depends on the random generator.
#[verifier::external_body]
fn sample_corpus(corpus: &[usize], amount: usize) -> (r: Vec<usize>)
    ensures
        r@.len() == if amount <= corpus@.len() {
            amount as int
        } else {
            corpus@.len() as int
        },
        forall|i: int| 0 <= i < r@.len() ==> corpus@.contains(#[trigger] r@[i]),
{
    let mut rng = rand::thread_rng();
    corpus.choose_multiple(&mut rng, amount).cloned().collect()
}

/// Keeps, in order, the candidates that differ from the true target; with
/// `keep_matching`, exactly those equal to it instead. The second mode
/// mirrors an inverted reading of the sampler's filter and is kept so
/// that both behaviors stay observable side by side.
pub fn filter_candidates(candidates: &Vec<usize>, target: usize, keep_matching: bool) -> (r: Vec<
    usize,
>)
    ensures
        !keep_matching ==> r@ == candidates@.filter((|x: usize| x != target)),
        keep_matching ==> r@ == candidates@.filter((|x: usize| x == target)),
{
    let ghost pred: spec_fn(usize) -> bool = if keep_matching {
        |x: usize| x == target
    } else {
        |x: usize| x != target
    };
    let mut r: Vec<usize> = Vec::new();
    proof {
        reveal(Seq::filter);
        assert(candidates@.take(0) =~= Seq::<usize>::empty());
    }
    let mut i: usize = 0;
    while i < candidates.len()
        invariant
            i <= candidates@.len(),
            pred == (if keep_matching {
                |x: usize| x == target
            } else {
                |x: usize| x != target
            }),
            r@ == candidates@.take(i as int).filter(pred),
        decreases candidates@.len() - i,
    {
        proof {
            reveal(Seq::filter);
            assert(candidates@.take(i + 1).drop_last() =~= candidates@.take(i as int));
            assert(candidates@.take(i + 1).last() == candidates@[i as int]);
        }
        let c = candidates[i];
        if (c == target) == keep_matching {
            r.push(c);
        }
        i += 1;
    }
    proof {
        assert(candidates@.take(candidates@.len() as int) =~= candidates@);
    }
    r
}

impl CBOWParams {
    /// Draws `random_samples` candidate ids from the corpus and discards
    /// every candidate equal to the true target. The result never
    /// contains the target; it may be shorter than the draw, and may be
    /// empty — callers must tolerate a step with no negative samples.
    pub fn get_random_indices(&self, target: &usize, corpus: &[usize]) -> (r: Vec<usize>)
        ensures
            r@.len() <= self.random_samples,
            forall|i: int|
                0 <= i < r@.len() ==> #[trigger] r@[i] != *target && corpus@.contains(r@[i]),
    {
        let samples = sample_corpus(corpus, self.random_samples);
        let r = filter_candidates(&samples, *target, false);
        proof {
            let pred = (|x: usize| x != *target);
            samples@.filter_lemma(pred);
            lemma_filter_elements_contained(samples@, pred);
            assert forall|i: int| 0 <= i < r@.len() implies #[trigger] r@[i] != *target
                && corpus@.contains(r@[i]) by {
                assert(pred(r@[i]));
                let j = choose|j: int| 0 <= j < samples@.len() && samples@[j] == r@[i];
                assert(corpus@.contains(samples@[j]));
            }
        }
        r
    }
}

/// Every element of a filtered sequence occurs in the sequence itself.
proof fn lemma_filter_elements_contained(s: Seq<usize>, pred: spec_fn(usize) -> bool)
    ensures
        forall|i: int|
            0 <= i < s.filter(pred).len() ==> s.contains(#[trigger] s.filter(pred)[i]),
    decreases s.len(),
{
    reveal(Seq::filter);
    if s.len() > 0 {
        lemma_filter_elements_contained(s.drop_last(), pred);
        let f = s.filter(pred);
        let fd = s.drop_last().filter(pred);
        assert forall|i: int| 0 <= i < f.len() implies s.contains(f[i]) by {
            if i < fd.len() {
                assert(f[i] == fd[i]);
                assert(s.drop_last().contains(fd[i]));
                let j = choose|j: int|
                    0 <= j < s.drop_last().len() && s.drop_last()[j] == fd[i];
                assert(s[j] == f[i]);
            } else {
                assert(f[i] == s.last());
                assert(s[s.len() - 1] == f[i]);
            }
        }
    }
}

} // verus!
