//! Index arithmetic for the flattened embedding matrices.
//!
//! Both embedding matrices are conceptually two-dimensional arrays of
//! shape `(vocab_size, embeddings_dimension)`, stored as one contiguous
//! buffer: the entry for word `id` at dimension offset `d` lives at the
//! flat offset `id * embeddings_dimension + d`.

use vstd::prelude::*;

verus! {

/// Flat offset of the entry for word `word_id` at dimension offset
/// `dim_offset` in a matrix of row width `embeddings_dimension`.
pub fn flat_index(word_id: usize, dim_offset: usize, embeddings_dimension: usize) -> (r: usize)
    requires
        dim_offset < embeddings_dimension,
        word_id * embeddings_dimension + dim_offset <= usize::MAX,
    ensures
        r == word_id * embeddings_dimension + dim_offset,
{
    word_id * embeddings_dimension + dim_offset
}

} // verus!
