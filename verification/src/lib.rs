//! A two-tier blob cache: a node-local cache directory in front of a durable backing store.
//!
//! The crate holds every decision of the cache and none of its input or output. An operation
//! ([`operation`]) names the next thing to do to a tier as an [`operation::Action`]; the caller does
//! it and hands the reply back as an [`operation::Event`]. The accounting that decides when a cache
//! write is skipped and when the cache is swept lives in [`cache::CachedBlobStore`], and
//! [`eviction`] picks the files a sweep removes. What holds of whole operations, whatever the
//! tiers answer, is proved in [`laws`].

pub mod cache;
pub mod delete;
pub mod error;
pub mod eviction;
pub mod get;
pub mod has;
pub mod laws;
pub mod listing;
pub mod operation;
pub mod put;
