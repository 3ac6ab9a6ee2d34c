use video_sync_merger::jobs::{default_layout, validate_layout, SourceEntry};
use video_sync_merger::media::{Track, TrackType};
use video_sync_merger::pipeline::Progress;
use video_sync_merger::queue::JobQueueDialog;

fn source(name: &str) -> SourceEntry {
    SourceEntry { name: String::from(name), path: format!("/media/{name}.mkv") }
}

fn track(source: &str, id: u32, track_type: TrackType) -> Track {
    Track {
        source: String::from(source),
        id,
        track_type,
        codec_id: String::from("codec"),
        lang: String::from("und"),
        name: String::new(),
    }
}

#[test]
fn default_layout_groups_by_source_in_reference_order() {
    let sources = vec![source("ref"), source("sec")];
    let tracks = vec![
        track("sec", 0, TrackType::Audio),
        track("ref", 0, TrackType::Video),
        track("ref", 1, TrackType::Audio),
        track("sec", 1, TrackType::Subtitles),
    ];
    let layout = default_layout(&sources, &tracks);
    assert_eq!(layout.len(), 4);
    assert_eq!((layout[0].source.as_str(), layout[0].id), ("ref", 0));
    assert_eq!((layout[1].source.as_str(), layout[1].id), ("ref", 1));
    assert_eq!((layout[2].source.as_str(), layout[2].id), ("sec", 0));
    assert_eq!((layout[3].source.as_str(), layout[3].id), ("sec", 1));
    assert!(validate_layout(&layout, &sources, &tracks).is_ok());
}

#[test]
fn default_layout_skips_unknown_sources() {
    let sources = vec![source("ref")];
    let tracks = vec![track("ref", 0, TrackType::Video), track("stray", 0, TrackType::Audio)];
    let layout = default_layout(&sources, &tracks);
    assert_eq!(layout.len(), 1);
    assert_eq!(layout[0].source, "ref");
}

#[test]
fn progress_is_monotone_and_capped() {
    let mut p = Progress::new();
    assert_eq!(p.current_milli(), 0);
    p.advance_to(300);
    assert_eq!(p.current_milli(), 300);
    // A lower report never moves progress backwards.
    p.advance_to(100);
    assert_eq!(p.current_milli(), 300);
    p.advance_to(1000);
    assert_eq!(p.current_milli(), 1000);
    // Progress never passes the whole.
    p.advance_to(5000);
    assert_eq!(p.current_milli(), 1000);
}

#[test]
fn one_job_per_output_path() {
    let in_flight = vec![String::from("/out/a.mkv"), String::from("/out/b.mkv")];
    assert!(!JobQueueDialog::may_start(&in_flight, &String::from("/out/a.mkv")));
    assert!(JobQueueDialog::may_start(&in_flight, &String::from("/out/c.mkv")));
    assert!(JobQueueDialog::may_start(&Vec::new(), &String::from("/out/a.mkv")));
}
