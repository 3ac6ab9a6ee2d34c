//! Probed media model: track kinds and the per-track metadata a probe
//! collaborator reports for one source file.

use vstd::prelude::*;

verus! {

/// Kind of an elementary stream inside a source container.
#[derive(Clone, Copy, Debug, PartialEq, Eq, Structural)]
pub enum TrackType {
    Video,
    Audio,
    Subtitles,
}

/// One stream inside a source, as reported by the media probe.
///
/// `id` is unique within the owning source, not globally; the pair
/// `(source, id)` identifies a physical track.
#[derive(Clone, Debug)]
pub struct Track {
    pub source: String,
    pub id: u32,
    pub track_type: TrackType,
    pub codec_id: String,
    pub lang: String,
    pub name: String,
}

} // verus!

