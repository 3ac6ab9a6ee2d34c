//! Core of a video/audio sync-and-merge tool: estimates the relative time
//! offsets of independently captured recordings of one event from sampled
//! audio fingerprints, aggregates them into non-negative per-source delays,
//! and drives an ordered pipeline (analyze, select tracks, apply delays,
//! merge, finalize chapters) over a job description.
//!
//! All media probing, decoding and container writing is left to collaborators
//! outside this crate; the library works on plain values they supply and
//! every function in it is verified.

pub mod aggregate;
pub mod chapters;
pub mod config;
pub mod context;
pub mod errors;
pub mod estimator;
pub mod fingerprint;
pub mod jobs;
pub mod media;
pub mod mergeplan;
pub mod pipeline;
pub mod queue;
pub mod selection;
