use video_sync_merger::config::AppConfig;
use video_sync_merger::errors::PipelineError;
use video_sync_merger::jobs::{
    source_index, validate_layout, JobSpec, SourceEntry, TrackSelection,
};
use video_sync_merger::media::{Track, TrackType};

fn source(name: &str) -> SourceEntry {
    SourceEntry { name: String::from(name), path: format!("/media/{name}.mkv") }
}

fn track(source: &str, id: u32, track_type: TrackType) -> Track {
    Track {
        source: String::from(source),
        id,
        track_type,
        codec_id: String::from("codec"),
        lang: String::from("und"),
        name: String::new(),
    }
}

fn select(source: &str, id: u32, track_type: TrackType) -> TrackSelection {
    TrackSelection { source: String::from(source), id, track_type }
}

#[test]
fn find_source_by_name() {
    let job = JobSpec {
        sources: vec![source("reference"), source("secondary")],
        manual_layout: Vec::new(),
    };
    assert_eq!(job.find_source(&String::from("reference")), Some(0));
    assert_eq!(job.find_source(&String::from("secondary")), Some(1));
    assert_eq!(job.find_source(&String::from("tertiary")), None);
    assert_eq!(source_index(&job.sources, &String::from("secondary")), Some(1));
}

#[test]
fn valid_layout_passes() {
    let sources = vec![source("a"), source("b")];
    let tracks = vec![
        track("a", 0, TrackType::Video),
        track("a", 1, TrackType::Audio),
        track("b", 0, TrackType::Audio),
        track("b", 1, TrackType::Subtitles),
    ];
    let layout = vec![
        select("a", 0, TrackType::Video),
        select("b", 0, TrackType::Audio),
        select("b", 1, TrackType::Subtitles),
    ];
    assert!(validate_layout(&layout, &sources, &tracks).is_ok());
}

#[test]
fn missing_source_is_rejected() {
    let sources = vec![source("a")];
    let tracks = vec![track("a", 0, TrackType::Video)];
    let layout = vec![select("d", 0, TrackType::Video)];
    assert_eq!(
        validate_layout(&layout, &sources, &tracks),
        Err(PipelineError::TrackSelectionInvalid)
    );
}

#[test]
fn type_mismatch_is_rejected() {
    let sources = vec![source("a")];
    let tracks = vec![track("a", 0, TrackType::Video)];
    let layout = vec![select("a", 0, TrackType::Audio)];
    assert_eq!(
        validate_layout(&layout, &sources, &tracks),
        Err(PipelineError::TrackSelectionInvalid)
    );
}

#[test]
fn missing_track_id_is_rejected() {
    let sources = vec![source("a")];
    let tracks = vec![track("a", 0, TrackType::Video)];
    let layout = vec![select("a", 7, TrackType::Video)];
    assert_eq!(
        validate_layout(&layout, &sources, &tracks),
        Err(PipelineError::TrackSelectionInvalid)
    );
}

#[test]
fn intentional_duplicate_is_permitted() {
    let sources = vec![source("a")];
    let tracks = vec![track("a", 2, TrackType::Subtitles)];
    let layout = vec![
        select("a", 2, TrackType::Subtitles),
        select("a", 2, TrackType::Subtitles),
    ];
    assert!(validate_layout(&layout, &sources, &tracks).is_ok());
}

#[test]
fn empty_layout_is_valid() {
    let sources = vec![source("a")];
    assert!(validate_layout(&Vec::new(), &sources, &Vec::new()).is_ok());
}

#[test]
fn default_config_matches_shipped_settings() {
    let c = AppConfig::default();
    assert_eq!(c.min_match_centi_pct, 500);
    assert_eq!(c.scan_chunk_count, 10);
    assert_eq!(c.scan_chunk_duration, 15);
    assert!(!c.segmented_enabled);
    assert!(!c.rename_chapters);
    assert!(!c.snap_chapters);
    assert_eq!(c.snap_threshold_ms, 250);
    assert!(!c.disable_track_statistics_tags);
    assert!(c.disable_header_compression);
    assert!(c.output_folder.is_empty());
    assert!(c.temp_root.is_empty());
}
