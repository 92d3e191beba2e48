//! Structural diff and change-log tracking for service description documents.
//!
//! A [`document::DiscoveryDocument`] is a snapshot of one remote service's
//! machine-readable interface description.  The diff engine compares two
//! snapshots field by field and produces a path-addressed
//! [`change::ChangeSet`]; the change logger classifies, summarises and keeps
//! the resulting history as queryable, timestamp-keyed records; the snapshot
//! storage holds the last-seen document per service for the next comparison.

pub mod api;
pub mod change;
pub mod change_logger;
pub mod classify;
pub mod clock;
pub mod config;
pub mod diff_engine;
pub mod document;
pub mod fetch;
pub mod keymap;
pub mod laws;
pub mod storage;
pub mod text;
pub mod value;
pub mod webhook;
