//! Process-wide user settings consumed by the pipeline.
//!
//! Persistence of these settings (a settings file) belongs to the
//! collaborator layer; the core only reads this struct. Percentages are
//! carried in hundredths of a percent so that the whole crate stays on
//! integer arithmetic.

use vstd::prelude::*;

verus! {

/// Snapshot of the user settings that the pipeline reads.
#[derive(Clone, Debug)]
pub struct AppConfig {
    /// Directory that finished containers are written into.
    pub output_folder: String,
    /// Root under which each job gets its own temp subdirectory.
    pub temp_root: String,
    /// Floor, in hundredths of a percent, under which an estimated
    /// delay is rejected as a low-confidence match.
    pub min_match_centi_pct: u32,
    /// How many comparison windows to sample per source.
    pub scan_chunk_count: u32,
    /// Seconds per comparison window.
    pub scan_chunk_duration: u32,
    /// Whether to sample several windows across the file rather than
    /// a single comparison window.
    pub segmented_enabled: bool,
    /// Relabel every chapter to the canonical `Chapter NN` scheme.
    pub rename_chapters: bool,
    /// Snap chapter timestamps to a nearby keyframe.
    pub snap_chapters: bool,
    /// Inclusive distance, in milliseconds, within which a chapter
    /// timestamp snaps to a keyframe.
    pub snap_threshold_ms: u64,
    /// Omit muxer-written track statistics tags from the output.
    pub disable_track_statistics_tags: bool,
    /// Trade output size for compatibility with strict readers.
    pub disable_header_compression: bool,
}

impl Default for AppConfig {
    /// Defaults mirror the shipped settings: a 5% match floor, ten
    /// fifteen-second windows, 250 ms snap threshold, header
    /// compression off. Directory paths start empty; the collaborator
    /// that owns persistence fills them in.
    fn default() -> (c: AppConfig)
        ensures
            c.output_folder@ == Seq::<char>::empty(),
            c.temp_root@ == Seq::<char>::empty(),
            c.min_match_centi_pct == 500,
            c.scan_chunk_count == 10,
            c.scan_chunk_duration == 15,
            !c.segmented_enabled,
            !c.rename_chapters,
            !c.snap_chapters,
            c.snap_threshold_ms == 250,
            !c.disable_track_statistics_tags,
            c.disable_header_compression,
    {
        AppConfig {
            output_folder: String::new(),
            temp_root: String::new(),
            min_match_centi_pct: 500,
            scan_chunk_count: 10,
            scan_chunk_duration: 15,
            segmented_enabled: false,
            rename_chapters: false,
            snap_chapters: false,
            snap_threshold_ms: 250,
            disable_track_statistics_tags: false,
            disable_header_compression: true,
        }
    }
}

} // verus!
