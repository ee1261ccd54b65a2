//! An attested oracle core: a fetch-cache-sign pipeline.
//!
//! A query is validated and normalized into a cache key; a freshness cache
//! is consulted; on a miss or a stale entry the upstream body is decoded
//! into a metric record, wrapped in an intent message, signed, and the
//! serialized envelope is stored back into the cache.

pub mod cache;
pub mod clock;
pub mod codec;
pub mod errors;
pub mod fetch;
pub mod message;
pub mod oracle;
pub mod query;
pub mod signer;
