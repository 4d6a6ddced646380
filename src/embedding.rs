//! Errors of the embedding backends, as one type.

use vstd::prelude::*;
use crate::chat::FastEmbedError;

verus! {

/// An embedding that failed, by backend.
#[derive(Debug)]
pub enum EmbeddingError {
    /// The OpenAI-compatible service failed.
    OpenAI(crate::chat::EmbeddingError),
    /// The local model failed.
    FastEmbed(FastEmbedError),
}

} // verus!
