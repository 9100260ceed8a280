//! Core of a favorites-mirroring service: an intake gate that deduplicates
//! externally observed post identifiers, a store of posts, downloads, tags and
//! their associations, a tag-intersection search, a content classifier and
//! transcoding policy, and the bookkeeping of the per-post ingestion pipeline.
//!
//! All I/O (the database, the network, subprocesses, the filesystem) lives
//! outside this crate; the logic here is verified.

pub mod classify;
pub mod error;
pub mod guard;
pub mod intake;
pub mod naming;
pub mod transcode;
pub mod worker;
pub mod pages;
pub mod parse;
pub mod search;
pub mod store;
pub mod suggest;
pub mod tags;
pub mod text;
pub mod web;
