//! Training of dense word embeddings with the continuous bag-of-words
//! (CBOW) algorithm and negative sampling.
//!
//! The crate covers the discrete side of the pipeline: turning raw text
//! into a vocabulary and an integer-encoded corpus, sliding a window over
//! the corpus to produce (context, target) training pairs, drawing and
//! filtering negative-sample candidates, and the index arithmetic into the
//! flattened embedding matrices. The floating-point updates themselves are
//! carried out by the surrounding application on top of these functions.

pub mod corpus;
pub mod matrix;
pub mod params;
pub mod sampling;
pub mod text;
