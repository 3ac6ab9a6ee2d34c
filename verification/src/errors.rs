//! Failure taxonomy of the pipeline.
//!
//! `NoAudioTrack`, `InsufficientSignal` and `LowConfidenceMatch` are
//! recoverable per-source conditions: the source is recorded as unaligned
//! and the job continues with a warning, unless the source is the
//! reference, in which case the job fails. The remaining variants are
//! fatal for the current job only.

use vstd::prelude::*;

verus! {

/// Why a step of the pipeline, or the alignment of one source, failed.
#[derive(Clone, Copy, Debug, PartialEq, Eq, Structural)]
pub enum PipelineError {
    /// A source's track list could not be read.
    ProbeFailure,
    /// A source offers no decodable audio stream to align by.
    NoAudioTrack,
    /// Every sampled chunk of a source was silence: nothing to correlate.
    InsufficientSignal,
    /// The best offset's match percentage fell below the configured floor.
    LowConfidenceMatch,
    /// A track selection references a missing or type-mismatched track.
    TrackSelectionInvalid,
    /// Writing the output container failed. `out_of_space` distinguishes
    /// an exhausted output or temp volume from codec and container errors.
    MergeIoFailure { out_of_space: bool },
}

} // verus!
