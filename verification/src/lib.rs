//! Resumable, checkpointed translation of subtitle files.
//!
//! The library holds the decisions of a subtitle translation run: which entry
//! is translated next and with which context, how failed attempts are retried,
//! what is recorded in the checkpoint and when, and what the final file holds.
//! Everything that touches a file, the network or the clock is left to the
//! caller, who performs each [`pipeline::Action`] and reports back with an
//! [`pipeline::Event`].

pub mod checkpoint;
pub mod entry;
pub mod laws;
pub mod paths;
pub mod pipeline;
pub mod request;
pub mod split;
pub mod srt;
