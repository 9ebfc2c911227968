//! Verified core of a personal message archiver.
//!
//! The library models the synchronization and ingestion pipeline of the
//! archiver: per-conversation replay decisions (full vs. partial), the
//! deduplicated ingestion path from producers into storage, and the media
//! resolution state machine. All I/O (the remote messaging client, the
//! relational store, the async runtime) lives outside the library, which
//! receives plain values and hands back decisions and updated model state.

pub mod cache;
pub mod config;
pub mod db;
pub mod live;
pub mod media;
pub mod model;
pub mod queue;
pub mod sync;

use vstd::prelude::*;

verus! {

} // verus!
