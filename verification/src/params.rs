//! Training configuration and sliding-window pair generation.
//!
//! `CBOWParams` holds the discrete training configuration. The window
//! always satisfies `window_size == 2 * target + 1`: `target` is the
//! half-window size and also the offset of the target word inside a
//! window. Pair generation slides a window of `window_size` over the
//! encoded corpus and splits each window into its center (the target id)
//! and the remaining elements in order (the context ids).

use vstd::prelude::*;

verus! {

/// The context ids of the window that starts at `k`: the `w` ids before
/// the center and the `w` ids after it, in their original order.
pub open spec fn context_at(corpus: Seq<usize>, w: int, k: int) -> Seq<usize> {
    corpus.subrange(k, k + w).add(corpus.subrange(k + w + 1, k + 2 * w + 1))
}

/// The discrete configuration of a training run.
pub struct CBOWParams {
    /// Number of distinct words in the vocabulary.
    pub vocab_size: usize,
    /// Width of each embedding vector.
    pub embeddings_dimension: usize,
    /// Number of candidate draws per negative-sampling step.
    pub random_samples: usize,
    /// Full window width, always `2 * target + 1`.
    pub window_size: usize,
    /// Half-window size; offset of the target word inside a window.
    pub target: usize,
    /// Number of passes over the training pairs.
    pub epochs: usize,
}

impl CBOWParams {
    /// The window invariant: the window holds the target word in its
    /// center, with `target` context words on each side.
    pub open spec fn wf(&self) -> bool {
        self.window_size == 2 * self.target + 1
    }

    /// The default configuration: dimension 100, 30 candidate draws,
    /// half-window 2 (window width 5), 100 epochs, empty vocabulary.
    pub fn default() -> (r: Self)
        ensures
            r.wf(),
            r.vocab_size == 0,
            r.embeddings_dimension == 100,
            r.random_samples == 30,
            r.window_size == 5,
            r.target == 2,
            r.epochs == 100,
    {
        let window_size: usize = 2;
        Self {
            vocab_size: 0,
            random_samples: 30,
            embeddings_dimension: 100,
            window_size: window_size * 2 + 1,
            target: window_size,
            epochs: 100,
        }
    }

    /// The default configuration for a vocabulary of `vocab_size` words.
    pub fn new(vocab_size: usize) -> (r: Self)
        ensures
            r.wf(),
            r.vocab_size == vocab_size,
            r.embeddings_dimension == 100,
            r.random_samples == 30,
            r.window_size == 5,
            r.target == 2,
            r.epochs == 100,
    {
        let mut result = Self::default();
        result.vocab_size = vocab_size;
        result
    }

    /// Replaces the number of candidate draws per negative-sampling step.
    pub fn set_random_samples(self, random_samples: usize) -> (r: Self)
        ensures
            r == (Self { random_samples, ..self }),
    {
        Self { random_samples, ..self }
    }

    /// Replaces the embedding dimension.
    pub fn set_embeddings_dimension(self, embeddings_dimension: usize) -> (r: Self)
        ensures
            r == (Self { embeddings_dimension, ..self }),
    {
        Self { embeddings_dimension, ..self }
    }

    /// Replaces the half-window size: the full window width becomes
    /// `2 * window_size + 1` and the target offset `window_size`.
    pub fn set_window_size(self, window_size: usize) -> (r: Self)
        requires
            2 * window_size + 1 <= usize::MAX,
        ensures
            r.wf(),
            r.target == window_size,
            r.window_size == 2 * window_size + 1,
            r.vocab_size == self.vocab_size,
            r.embeddings_dimension == self.embeddings_dimension,
            r.random_samples == self.random_samples,
            r.epochs == self.epochs,
    {
        Self { window_size: window_size * 2 + 1, target: window_size, ..self }
    }

    /// Replaces the number of epochs.
    pub fn set_epochs(self, epochs: usize) -> (r: Self)
        ensures
            r == (Self { epochs, ..self }),
    {
        Self { epochs, ..self }
    }

    /// Length of each flattened embedding matrix:
    /// `vocab_size * embeddings_dimension` entries.
    pub fn matrix_len(&self) -> (r: usize)
        requires
            self.vocab_size * self.embeddings_dimension <= usize::MAX,
        ensures
            r == self.vocab_size * self.embeddings_dimension,
    {
        self.vocab_size * self.embeddings_dimension
    }

    /// Slides a window of `window_size` over the corpus and returns one
    /// (context ids, target id) pair per position: the target is the
    /// window's center element, the context the remaining elements in
    /// their original order. A corpus shorter than the window yields no
    /// pairs.
    pub fn generate_pairs(&self, corpus: &[usize]) -> (pairs: Vec<(Vec<usize>, usize)>)
        requires
            self.wf(),
        ensures
            corpus@.len() < self.window_size ==> pairs@.len() == 0,
            corpus@.len() >= self.window_size ==> pairs@.len() == corpus@.len()
                - self.window_size + 1,
            forall|k: int|
                0 <= k < pairs@.len() ==> (#[trigger] pairs@[k]).0@ == context_at(
                    corpus@,
                    self.target as int,
                    k,
                ) && pairs@[k].1 == corpus@[k + self.target],
    {
        let mut pairs: Vec<(Vec<usize>, usize)> = Vec::new();
        let len = corpus.len();
        if len < self.window_size {
            return pairs;
        }
        let count = len - self.window_size + 1;
        let mut k: usize = 0;
        while k < count
            invariant
                self.wf(),
                len == corpus@.len(),
                self.window_size <= len,
                count == len - self.window_size + 1,
                k <= count,
                pairs@.len() == k,
                forall|m: int|
                    0 <= m < k ==> (#[trigger] pairs@[m]).0@ == context_at(
                        corpus@,
                        self.target as int,
                        m,
                    ) && pairs@[m].1 == corpus@[m + self.target],
            decreases count - k,
        {
            let mut context: Vec<usize> = Vec::new();
            let mut a: usize = k;
            proof {
                assert(context@ =~= corpus@.subrange(k as int, k as int));
            }
            while a < k + self.target
                invariant
                    k <= a <= k + self.target,
                    k + self.window_size <= len == corpus@.len(),
                    self.wf(),
                    context@ == corpus@.subrange(k as int, a as int),
                decreases k + self.target - a,
            {
                proof {
                    assert(corpus@.subrange(k as int, a + 1) =~= corpus@.subrange(
                        k as int,
                        a as int,
                    ).push(corpus@[a as int]));
                }
                context.push(corpus[a]);
                a += 1;
            }
            let target_id = corpus[k + self.target];
            let mut b: usize = k + self.target + 1;
            proof {
                assert(context@ =~= corpus@.subrange(k as int, k + self.target).add(
                    corpus@.subrange(b as int, b as int),
                ));
            }
            while b < k + self.window_size
                invariant
                    k + self.target + 1 <= b <= k + self.window_size,
                    k + self.window_size <= len == corpus@.len(),
                    self.wf(),
                    context@ == corpus@.subrange(k as int, k + self.target).add(
                        corpus@.subrange(k + self.target + 1, b as int),
                    ),
                decreases k + self.window_size - b,
            {
                proof {
                    assert(corpus@.subrange(k + self.target + 1, b + 1) =~= corpus@.subrange(
                        k + self.target + 1,
                        b as int,
                    ).push(corpus@[b as int]));
                    assert(corpus@.subrange(k as int, k + self.target).add(
                        corpus@.subrange(k + self.target + 1, b as int).push(corpus@[b as int]),
                    ) =~= corpus@.subrange(k as int, k + self.target).add(
                        corpus@.subrange(k + self.target + 1, b as int),
                    ).push(corpus@[b as int]));
                }
                context.push(corpus[b]);
                b += 1;
            }
            proof {
                assert(context@ == context_at(corpus@, self.target as int, k as int));
            }
            pairs.push((context, target_id));
            k += 1;
        }
        pairs
    }
}

} // verus!
