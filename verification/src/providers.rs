//! Adapters whose back ends are not built yet: each answers every call with
//! a "not implemented" error naming what is pending.

use vstd::prelude::*;
use crate::domain::{CoreError, Fault};

verus! {

/// The lock manager meant to be backed by Redis.
#[derive(Debug, Clone, Copy, PartialEq, Eq)]
pub struct RedisLockManager;

/// The query-embedding cache meant to be backed by Redis.
#[derive(Debug, Clone, Copy, PartialEq, Eq)]
pub struct RedisQueryCache;

/// The OpenAI-compatible embedding and image-description client.
#[derive(Debug, Clone, Copy, PartialEq, Eq)]
pub struct OpenAiCompatClient;

impl RedisLockManager {
    /// Taking an asset's lock: not implemented yet.
    pub fn acquire_asset_lock(&self) -> (r: Result<(), CoreError>)
        ensures
            r matches Err(e) && e@ == Fault::NotImplemented("redis lock implementation pending"@),
    {
        Err(CoreError::NotImplemented("redis lock implementation pending".to_owned()))
    }
}

impl RedisQueryCache {
    /// Reading or writing a cached query embedding: not implemented yet.
    pub fn cache_unavailable(&self) -> (r: CoreError)
        ensures
            r@ == Fault::NotImplemented("redis query cache implementation pending"@),
    {
        CoreError::NotImplemented("redis query cache implementation pending".to_owned())
    }
}

impl OpenAiCompatClient {
    /// Embedding texts: not implemented yet.
    pub fn embed_texts_unavailable(&self) -> (r: CoreError)
        ensures
            r@ == Fault::NotImplemented("openai-compatible embeddings implementation pending"@),
    {
        CoreError::NotImplemented("openai-compatible embeddings implementation pending".to_owned())
    }

    /// Embedding a query: not implemented yet.
    pub fn embed_query_unavailable(&self) -> (r: CoreError)
        ensures
            r@ == Fault::NotImplemented(
                "openai-compatible query embedding implementation pending"@,
            ),
    {
        CoreError::NotImplemented(
            "openai-compatible query embedding implementation pending".to_owned(),
        )
    }

    /// Describing an image: not implemented yet.
    pub fn describe_image_unavailable(&self) -> (r: CoreError)
        ensures
            r@ == Fault::NotImplemented(
                "openai-compatible image understanding implementation pending"@,
            ),
    {
        CoreError::NotImplemented(
            "openai-compatible image understanding implementation pending".to_owned(),
        )
    }
}

} // verus!
