use video_sync_merger::chapters::Chapter;
use video_sync_merger::config::AppConfig;
use video_sync_merger::context::Context;
use video_sync_merger::errors::PipelineError;
use video_sync_merger::estimator::Fingerprint;
use video_sync_merger::jobs::{SourceEntry, TrackSelection};
use video_sync_merger::media::{Track, TrackType};
use video_sync_merger::pipeline::{
    AlignOutcome, MergeOutcome, Orchestrator, PipelineState, ProbedInputs, SourceAudio,
};

fn source(name: &str, path: &str) -> SourceEntry {
    SourceEntry { name: String::from(name), path: String::from(path) }
}

fn pattern(len: usize) -> Vec<u64> {
    (0..len).map(|i| ((i as u64 * 37) % 97) + 1).collect()
}

fn audio(name: &str, energies: Vec<u64>) -> SourceAudio {
    SourceAudio {
        name: String::from(name),
        has_audio: true,
        chunks: vec![Fingerprint { energies }],
    }
}

fn context_for(sources: Vec<SourceEntry>, and_merge: bool) -> Context {
    let job = video_sync_merger::jobs::JobSpec { sources, manual_layout: Vec::new() };
    Context::for_job(
        &job,
        AppConfig::default(),
        and_merge,
        String::from("/tmp/job"),
        String::from("/out"),
    )
}

fn inputs_for(audio: Vec<SourceAudio>) -> ProbedInputs {
    ProbedInputs {
        tracks: Vec::new(),
        audio,
        bucket_ms: 100,
        max_shift_buckets: 16,
        chapters: Vec::new(),
        keyframes: Vec::new(),
        cancel_polls: Vec::new(),
        merge_outcome: MergeOutcome::Success,
    }
}

fn delay_of(run: &video_sync_merger::pipeline::JobRun, name: &str) -> i64 {
    run.context
        .delays
        .as_ref()
        .unwrap()
        .source_delays_ms
        .iter()
        .find(|s| s.name == name)
        .unwrap()
        .delay_ms
}

/// Three sources: "B" starts 1200 ms after the reference "A", "C"
/// starts 300 ms before it.
#[test]
fn three_sources_with_known_offsets() {
    let a = pattern(64);
    let b: Vec<u64> = a[12..].to_vec();
    let mut c = vec![0u64, 0, 0];
    c.extend_from_slice(&a[..61]);
    let ctx = context_for(
        vec![source("A", "/a.mkv"), source("B", "/b.mkv"), source("C", "/c.mkv")],
        false,
    );
    let orch = Orchestrator::new();
    let run = orch.run(
        ctx,
        &Vec::new(),
        &inputs_for(vec![audio("A", a), audio("B", b), audio("C", c)]),
    );
    assert_eq!(run.state, PipelineState::Analyzed);
    let delays = run.context.delays.as_ref().unwrap();
    assert_eq!(delays.global_shift_ms, 300);
    assert_eq!(delay_of(&run, "A"), 300);
    assert_eq!(delay_of(&run, "B"), 1500);
    assert_eq!(delay_of(&run, "C"), 0);
}

/// A selection referencing a source the job does not have fails at
/// validation, before any analysis.
#[test]
fn unknown_source_in_layout_fails_validation() {
    let ctx = context_for(vec![source("A", "/a.mkv"), source("B", "/b.mkv")], true);
    let layout = vec![TrackSelection {
        source: String::from("D"),
        id: 0,
        track_type: TrackType::Video,
    }];
    let orch = Orchestrator::new();
    let run = orch.run(
        ctx,
        &layout,
        &inputs_for(vec![audio("A", pattern(32)), audio("B", pattern(32))]),
    );
    assert_eq!(run.state, PipelineState::AnalysisFailed);
    assert_eq!(run.error, Some(PipelineError::TrackSelectionInvalid));
    assert!(run.context.delays.is_none());
    assert!(run.statuses.is_empty());
    assert!(run.plan.is_none());
    assert!(!run.output_written);
    assert!(run
        .logs
        .iter()
        .any(|l| l == "track selection references a missing or mismatched track"));
}

/// A silent secondary is recorded as `InsufficientSignal`, its delay
/// defaults to the reference's zero, and the job still merges.
#[test]
fn silent_secondary_defaults_to_zero_and_merges() {
    let ctx = context_for(vec![source("ref", "/r.mkv"), source("sec", "/s.mkv")], true);
    let orch = Orchestrator::new();
    let run = orch.run(
        ctx,
        &Vec::new(),
        &inputs_for(vec![audio("ref", pattern(32)), audio("sec", vec![0; 32])]),
    );
    assert_eq!(run.state, PipelineState::Completed);
    assert_eq!(run.statuses.len(), 2);
    assert_eq!(run.statuses[0].outcome, AlignOutcome::Reference);
    assert_eq!(
        run.statuses[1].outcome,
        AlignOutcome::Defaulted { reason: PipelineError::InsufficientSignal }
    );
    assert_eq!(delay_of(&run, "sec"), 0);
    assert_eq!(delay_of(&run, "ref"), 0);
    assert!(run.output_written);
    // The defaulted source leaves a warning line in the job's log.
    assert!(run
        .logs
        .iter()
        .any(|l| l == "could not align source, defaulting to zero offset: sec"));
}

/// Cancellation between the sampling phase and analysis reaches the
/// terminal `Cancelled` state: no output exists and the job's temp
/// directory is removed.
#[test]
fn cancellation_before_analysis_cleans_up() {
    let ctx = context_for(vec![source("ref", "/r.mkv"), source("sec", "/s.mkv")], true);
    let mut inputs = inputs_for(vec![audio("ref", pattern(32)), audio("sec", pattern(32))]);
    inputs.cancel_polls = vec![false, true];
    let orch = Orchestrator::new();
    let run = orch.run(ctx, &Vec::new(), &inputs);
    assert_eq!(run.state, PipelineState::Cancelled);
    assert!(run.error.is_none());
    assert!(!run.output_written);
    assert!(run.cleanup_temp);
    assert!(run.plan.is_none());
    assert!(run.context.delays.is_none());
}

#[test]
fn analyze_only_stops_at_analyzed() {
    let ctx = context_for(vec![source("ref", "/r.mkv"), source("sec", "/s.mkv")], false);
    let orch = Orchestrator::new();
    let run = orch.run(
        ctx,
        &Vec::new(),
        &inputs_for(vec![audio("ref", pattern(32)), audio("sec", pattern(32))]),
    );
    assert_eq!(run.state, PipelineState::Analyzed);
    assert!(run.plan.is_none());
    assert!(!run.output_written);
    assert!(run.context.delays.is_some());
}

/// A reference that is silent in every sampled chunk cannot anchor
/// the job: the analysis fails with `InsufficientSignal`.
#[test]
fn silent_reference_is_fatal() {
    let ctx = context_for(vec![source("ref", "/r.mkv"), source("sec", "/s.mkv")], true);
    let orch = Orchestrator::new();
    let run = orch.run(
        ctx,
        &Vec::new(),
        &inputs_for(vec![audio("ref", vec![0; 32]), audio("sec", pattern(32))]),
    );
    assert_eq!(run.state, PipelineState::AnalysisFailed);
    assert_eq!(run.error, Some(PipelineError::InsufficientSignal));
    assert!(run.context.delays.is_none());
    assert!(run.statuses.is_empty());
    assert!(!run.output_written);
    assert!(run
        .logs
        .iter()
        .any(|l| l == "reference source is silent in every sampled chunk"));
}

#[test]
fn reference_without_audio_is_fatal() {
    let ctx = context_for(vec![source("ref", "/r.mkv"), source("sec", "/s.mkv")], true);
    let mut bad_ref = audio("ref", Vec::new());
    bad_ref.has_audio = false;
    bad_ref.chunks = Vec::new();
    let orch = Orchestrator::new();
    let run = orch.run(
        ctx,
        &Vec::new(),
        &inputs_for(vec![bad_ref, audio("sec", pattern(32))]),
    );
    assert_eq!(run.state, PipelineState::AnalysisFailed);
    assert_eq!(run.error, Some(PipelineError::NoAudioTrack));
    assert!(!run.output_written);
}

#[test]
fn secondary_without_audio_is_recoverable() {
    let ctx = context_for(vec![source("ref", "/r.mkv"), source("sec", "/s.mkv")], false);
    let mut bad_sec = audio("sec", Vec::new());
    bad_sec.has_audio = false;
    let orch = Orchestrator::new();
    let run = orch.run(
        ctx,
        &Vec::new(),
        &inputs_for(vec![audio("ref", pattern(32)), bad_sec]),
    );
    assert_eq!(run.state, PipelineState::Analyzed);
    assert_eq!(
        run.statuses[1].outcome,
        AlignOutcome::Defaulted { reason: PipelineError::NoAudioTrack }
    );
    assert_eq!(delay_of(&run, "sec"), 0);
}

#[test]
fn merge_failure_kinds_are_distinct() {
    let sources = vec![source("ref", "/r.mkv"), source("sec", "/s.mkv")];
    let orch = Orchestrator::new();

    let mut inputs = inputs_for(vec![audio("ref", pattern(32)), audio("sec", pattern(32))]);
    inputs.merge_outcome = MergeOutcome::IoError;
    let run = orch.run(context_for(sources.clone(), true), &Vec::new(), &inputs);
    assert_eq!(run.state, PipelineState::MergeFailed);
    assert_eq!(run.error, Some(PipelineError::MergeIoFailure { out_of_space: false }));

    let mut inputs = inputs_for(vec![audio("ref", pattern(32)), audio("sec", pattern(32))]);
    inputs.merge_outcome = MergeOutcome::OutOfSpace;
    let run = orch.run(context_for(sources, true), &Vec::new(), &inputs);
    assert_eq!(run.state, PipelineState::MergeFailed);
    assert_eq!(run.error, Some(PipelineError::MergeIoFailure { out_of_space: true }));
}

/// A valid layout carries through to the merge plan with the resolved
/// per-source delays and the configured flags.
#[test]
fn merge_plan_carries_order_delays_and_flags() {
    let a = pattern(64);
    let b: Vec<u64> = a[5..].to_vec();
    let sources = vec![source("A", "/a.mkv"), source("B", "/b.mkv")];
    let mut ctx = context_for(sources, true);
    ctx.settings.disable_track_statistics_tags = true;
    ctx.settings.disable_header_compression = false;
    let tracks = vec![
        Track {
            source: String::from("A"),
            id: 0,
            track_type: TrackType::Video,
            codec_id: String::from("V_MPEG4/ISO/AVC"),
            lang: String::from("und"),
            name: String::new(),
        },
        Track {
            source: String::from("B"),
            id: 1,
            track_type: TrackType::Audio,
            codec_id: String::from("A_AAC"),
            lang: String::from("eng"),
            name: String::new(),
        },
    ];
    let layout = vec![
        TrackSelection { source: String::from("A"), id: 0, track_type: TrackType::Video },
        TrackSelection { source: String::from("B"), id: 1, track_type: TrackType::Audio },
    ];
    let mut inputs = inputs_for(vec![audio("A", a), audio("B", b)]);
    inputs.tracks = tracks;
    let orch = Orchestrator::new();
    let run = orch.run(ctx, &layout, &inputs);
    assert_eq!(run.state, PipelineState::Completed);
    let plan = run.plan.as_ref().unwrap();
    assert_eq!(plan.tracks.len(), 2);
    assert_eq!(plan.tracks[0].source, "A");
    assert_eq!(plan.tracks[0].delay_ms, 0);
    assert_eq!(plan.tracks[1].source, "B");
    assert_eq!(plan.tracks[1].delay_ms, 500);
    assert!(plan.disable_track_statistics_tags);
    assert!(!plan.disable_header_compression);
}

/// A merging job hands the muxer its normalized chapter list.
#[test]
fn merging_job_normalizes_chapters() {
    let sources = vec![source("ref", "/r.mkv"), source("sec", "/s.mkv")];
    let mut ctx = context_for(sources, true);
    ctx.settings.rename_chapters = true;
    ctx.settings.snap_chapters = true;
    ctx.settings.snap_threshold_ms = 250;
    let mut inputs = inputs_for(vec![audio("ref", pattern(32)), audio("sec", pattern(32))]);
    inputs.chapters = vec![
        Chapter { title: String::from("opening"), time_ms: 1240 },
        Chapter { title: String::from("closing"), time_ms: 8000 },
    ];
    inputs.keyframes = vec![1000, 5000];
    let orch = Orchestrator::new();
    let run = orch.run(ctx, &Vec::new(), &inputs);
    assert_eq!(run.state, PipelineState::Completed);
    let chapters = run.chapters.as_ref().unwrap();
    assert_eq!(chapters[0].title, "Chapter 01");
    assert_eq!(chapters[0].time_ms, 1000);
    assert_eq!(chapters[1].title, "Chapter 02");
    assert_eq!(chapters[1].time_ms, 8000);
}
