//! Pipeline Orchestrator: runs the ordered steps of one job over its
//! `Context` and realizes the job's state machine.
//!
//! All blocking work — probing, decoding, container writing — belongs
//! to collaborators. They sample the sources ahead of a run and report
//! the merge writer's outcome; this module makes every decision in
//! between: validation, per-source alignment, delay aggregation,
//! chapter normalization, merge planning, cooperative cancellation,
//! and the resulting terminal state.

use vstd::prelude::*;
use vstd::pervasive::unreached;
use vstd::string::StringExecFns;
use crate::aggregate::{
    aggregate_delays, global_shift_spec, lemma_min_properties, offsets_view, Delays, RawOffset,
    MAX_ABS_OFFSET_MS,
};
use crate::chapters::{chapter_title_spec, normalize_chapters, snapped_spec, Chapter};
use crate::context::Context;
use crate::errors::PipelineError;
use crate::estimator::{
    chunks_energy, chunks_wf, estimate_delay, estimate_result_spec, total_energy, Fingerprint,
    MAX_BUCKETS, MAX_BUCKET_MS,
};
use crate::jobs::{layout_valid, source_names_unique, validate_layout, SourceEntry, TrackSelection};
use crate::media::Track;
use crate::mergeplan::{build_merge_plan, plan_matches, MergePlan};

verus! {

/// The states a job passes through. `AnalysisFailed`, `MergeFailed`,
/// `Analyzed` (for analyze-only jobs), `Completed` and `Cancelled` are
/// terminal.
#[derive(Clone, Copy, Debug, PartialEq, Eq, Structural)]
pub enum PipelineState {
    Created,
    Analyzing,
    AnalysisFailed,
    Analyzed,
    Merging,
    MergeFailed,
    Completed,
    Cancelled,
}

/// What the merge writer collaborator reported back.
#[derive(Clone, Copy, Debug, PartialEq, Eq, Structural)]
pub enum MergeOutcome {
    /// The output container was written in full.
    Success,
    /// A codec or container error interrupted the write.
    IoError,
    /// The output or temp volume ran out of space.
    OutOfSpace,
}

/// One source's sampled audio, as the probe and sampler collaborators
/// hand it in: whether a decodable audio stream exists, and the chunk
/// fingerprints sampled from it.
#[derive(Clone, Debug)]
pub struct SourceAudio {
    pub name: String,
    pub has_audio: bool,
    pub chunks: Vec<Fingerprint>,
}

/// How one source fared in the Analysis step.
#[derive(Clone, Copy, Debug, PartialEq, Eq, Structural)]
pub enum AlignOutcome {
    /// The reference source anchors the timeline at offset zero.
    Reference,
    /// A delay was estimated with enough confidence.
    Aligned { offset_ms: i64, match_centi_pct: u32 },
    /// The source could not be aligned; its offset defaults to the
    /// reference's zero, and `reason` says why (a warning, not a
    /// failure of the job).
    Defaulted { reason: PipelineError },
}

/// Per-source analysis record, one per source of the job.
#[derive(Clone, Debug)]
pub struct SourceStatus {
    pub source: String,
    pub outcome: AlignOutcome,
}

/// Every source's chunk list is acceptable to the estimator.
pub open spec fn audio_wf(audio: Seq<SourceAudio>) -> bool {
    forall|i: int| 0 <= i < audio.len() ==> chunks_wf((#[trigger] audio[i]).chunks@)
}

/// The sampled audio lines up one-to-one with the job's sources.
pub open spec fn audio_matches_sources(audio: Seq<SourceAudio>, sources: Seq<SourceEntry>) -> bool {
    &&& audio.len() == sources.len()
    &&& forall|i: int| 0 <= i < audio.len() ==> (#[trigger] audio[i]).name@ == sources[i].name@
}

/// The reference can be aligned against: it offers a decodable audio
/// stream and its sampled chunks carry some signal. A reference that
/// fails either test is fatal for the job (`NoAudioTrack`,
/// `InsufficientSignal`); for a secondary the same conditions are
/// recoverable.
pub open spec fn reference_alignable(audio: Seq<SourceAudio>) -> bool {
    &&& audio[0].has_audio
    &&& chunks_energy(audio[0].chunks@) != 0
}

/// Some log line reads exactly `line`.
pub open spec fn log_contains(logs: Seq<String>, line: Seq<char>) -> bool {
    exists|i: int| 0 <= i < logs.len() && logs[i]@ == line
}

/// The warning line logged for a source that could not be aligned.
pub open spec fn warn_line_spec(name: Seq<char>) -> Seq<char> {
    "could not align source, defaulting to zero offset: "@ + name
}

/// Build the warning line for one unaligned source.
fn warn_line(name: &String) -> (r: String)
    ensures
        r@ == warn_line_spec(name@),
{
    let line = String::from_str("could not align source, defaulting to zero offset: ");
    line.concat(name.as_str())
}

/// The raw offset the Analysis step uses for one secondary source:
/// the estimate when one was accepted, the reference's zero otherwise.
pub open spec fn raw_offset_spec(
    refc: Seq<Fingerprint>,
    sec: SourceAudio,
    m: int,
    bucket_ms: int,
    min_pct: int,
) -> int {
    if !sec.has_audio {
        0
    } else {
        match estimate_result_spec(refc, sec.chunks@, m, bucket_ms, min_pct) {
            Ok(op) => op.0,
            Err(_) => 0,
        }
    }
}

/// The raw offsets of all sources, reference first at zero.
pub open spec fn raw_offsets_spec(
    audio: Seq<SourceAudio>,
    m: int,
    bucket_ms: int,
    min_pct: int,
) -> Seq<int> {
    Seq::new(
        audio.len(),
        |i: int|
            if i == 0 {
                0
            } else {
                raw_offset_spec(audio[0].chunks@, audio[i], m, bucket_ms, min_pct)
            },
    )
}

/// What the status record of source `i` must say.
pub open spec fn status_matches(
    st: SourceStatus,
    audio: Seq<SourceAudio>,
    i: int,
    m: int,
    bucket_ms: int,
    min_pct: int,
) -> bool {
    &&& st.source@ == audio[i].name@
    &&& (if i == 0 {
        st.outcome is Reference
    } else if !audio[i].has_audio {
        st.outcome == AlignOutcome::Defaulted { reason: PipelineError::NoAudioTrack }
    } else {
        match estimate_result_spec(audio[0].chunks@, audio[i].chunks@, m, bucket_ms, min_pct) {
            Ok(op) => st.outcome is Aligned && st.outcome->Aligned_offset_ms as int == op.0
                && st.outcome->Aligned_match_centi_pct as int == op.1,
            Err(e) => st.outcome == AlignOutcome::Defaulted { reason: e },
        }
    })
}

/// What the delays the Analysis step fills in must say: the raw
/// offsets plus the uniform shift that makes them non-negative.
pub open spec fn delays_match(
    d: Delays,
    audio: Seq<SourceAudio>,
    m: int,
    bucket_ms: int,
    min_pct: int,
) -> bool {
    let raws = raw_offsets_spec(audio, m, bucket_ms, min_pct);
    &&& d.global_shift_ms == global_shift_spec(raws)
    &&& d.global_shift_ms >= 0
    &&& d.source_delays_ms@.len() == audio.len()
    &&& forall|i: int|
        0 <= i < audio.len() ==> {
            &&& (#[trigger] d.source_delays_ms@[i]).name@ == audio[i].name@
            &&& d.source_delays_ms@[i].delay_ms == raws[i] + d.global_shift_ms
            &&& d.source_delays_ms@[i].delay_ms >= 0
        }
    &&& exists|i: int|
        0 <= i < audio.len() && (#[trigger] d.source_delays_ms@[i]).delay_ms == 0
}

/// What the Analysis step hands back on success.
pub struct AnalysisOutcome {
    pub context: Context,
    pub statuses: Vec<SourceStatus>,
    /// One warning line per source that could not be aligned.
    pub logs: Vec<String>,
}

pub struct AnalysisStep;

impl AnalysisStep {
    /// Estimate every secondary source's offset against the reference
    /// (the job's first source), record a per-source outcome, default
    /// unalignable sources to the reference's zero offset with a
    /// warning record and a warning line, aggregate, and fill the
    /// context's delays.
    ///
    /// Fails exactly when the reference itself cannot be aligned
    /// against: `NoAudioTrack` when it offers no decodable audio
    /// stream, `InsufficientSignal` when all its sampled chunks are
    /// silence. Every per-secondary problem is recoverable and shows
    /// up as a `Defaulted` status instead.
    pub fn run(
        context: Context,
        audio: &Vec<SourceAudio>,
        bucket_ms: u64,
        max_shift_buckets: usize,
    ) -> (r: Result<AnalysisOutcome, PipelineError>)
        requires
            audio@.len() == context.sources@.len(),
            audio@.len() >= 1,
            audio_matches_sources(audio@, context.sources@),
            source_names_unique(context.sources@),
            audio_wf(audio@),
            1 <= bucket_ms <= MAX_BUCKET_MS,
            max_shift_buckets <= MAX_BUCKETS,
        ensures
            r is Err <==> !reference_alignable(audio@),
            match r {
                Ok(out) => {
                    &&& reference_alignable(audio@)
                    &&& forall|i: int|
                        0 <= i < audio@.len() && (#[trigger] out.statuses@[i]).outcome
                            is Defaulted ==> log_contains(out.logs@, warn_line_spec(audio@[i].name@))
                    &&& out.context.same_base(context)
                    &&& out.context.delays is Some
                    &&& delays_match(
                        out.context.delays->0,
                        audio@,
                        max_shift_buckets as int,
                        bucket_ms as int,
                        context.settings.min_match_centi_pct as int,
                    )
                    &&& out.statuses@.len() == audio@.len()
                    &&& forall|i: int|
                        0 <= i < audio@.len() ==> status_matches(
                            #[trigger] out.statuses@[i],
                            audio@,
                            i,
                            max_shift_buckets as int,
                            bucket_ms as int,
                            context.settings.min_match_centi_pct as int,
                        )
                },
                Err(e) => (if !audio@[0].has_audio {
                    e == PipelineError::NoAudioTrack
                } else {
                    e == PipelineError::InsufficientSignal && chunks_energy(audio@[0].chunks@) == 0
                }),
            },
    {
        let ghost m = max_shift_buckets as int;
        let ghost b = bucket_ms as int;
        let ghost minp = context.settings.min_match_centi_pct as int;
        let reference = &audio[0];
        if !reference.has_audio {
            return Err(PipelineError::NoAudioTrack);
        }
        if total_energy(&reference.chunks) == 0 {
            return Err(PipelineError::InsufficientSignal);
        }
        let min_match = context.settings.min_match_centi_pct;
        let mut statuses: Vec<SourceStatus> = Vec::new();
        let mut logs: Vec<String> = Vec::new();
        let mut offsets: Vec<RawOffset> = Vec::new();
        statuses.push(SourceStatus { source: reference.name.clone(), outcome: AlignOutcome::Reference });
        offsets.push(RawOffset { name: reference.name.clone(), offset_ms: 0 });
        let ghost raws = raw_offsets_spec(audio@, m, b, minp);
        proof {
            assert((max_shift_buckets as int) * (bucket_ms as int) <= 0x1000 * 0x100000)
                by (nonlinear_arith)
                requires
                    0 <= max_shift_buckets as int <= 0x1000,
                    1 <= bucket_ms as int <= 0x100000,
            ;
        }
        let mut i: usize = 1;
        while i < audio.len()
            invariant
                1 <= i <= audio@.len(),
                audio_wf(audio@),
                1 <= bucket_ms <= MAX_BUCKET_MS,
                max_shift_buckets <= MAX_BUCKETS,
                (max_shift_buckets as int) * (bucket_ms as int) <= 0x1000 * 0x100000,
                m == max_shift_buckets as int,
                b == bucket_ms as int,
                minp == min_match as int,
                raws == raw_offsets_spec(audio@, m, b, minp),
                audio@[0].has_audio,
                statuses@.len() == i,
                offsets@.len() == i,
                forall|j: int|
                    0 <= j < i ==> status_matches(#[trigger] statuses@[j], audio@, j, m, b, minp),
                forall|j: int|
                    0 <= j < i && (#[trigger] statuses@[j]).outcome is Defaulted ==> log_contains(
                        logs@,
                        warn_line_spec(audio@[j].name@),
                    ),
                forall|j: int|
                    0 <= j < i ==> (#[trigger] offsets@[j]).name@ == audio@[j].name@
                        && offsets@[j].offset_ms == raws[j],
                forall|j: int|
                    0 <= j < i ==> -MAX_ABS_OFFSET_MS <= (#[trigger] offsets@[j]).offset_ms
                        <= MAX_ABS_OFFSET_MS,
            decreases audio@.len() - i,
        {
            let sec = &audio[i];
            let ghost logs_at_entry = logs@;
            if !sec.has_audio {
                statuses.push(
                    SourceStatus {
                        source: sec.name.clone(),
                        outcome: AlignOutcome::Defaulted { reason: PipelineError::NoAudioTrack },
                    },
                );
                logs.push(warn_line(&sec.name));
                offsets.push(RawOffset { name: sec.name.clone(), offset_ms: 0 });
            } else {
                match estimate_delay(
                    &audio[0].chunks,
                    &sec.chunks,
                    bucket_ms,
                    max_shift_buckets,
                    min_match,
                ) {
                    Ok(est) => {
                        proof {
                            assert((-(max_shift_buckets as int)) * (bucket_ms as int) == -((
                            max_shift_buckets as int) * (bucket_ms as int))) by (nonlinear_arith);
                            assert(-MAX_ABS_OFFSET_MS <= est.offset_ms as int
                                <= MAX_ABS_OFFSET_MS);
                        }
                        statuses.push(
                            SourceStatus {
                                source: sec.name.clone(),
                                outcome: AlignOutcome::Aligned {
                                    offset_ms: est.offset_ms,
                                    match_centi_pct: est.match_centi_pct,
                                },
                            },
                        );
                        offsets.push(RawOffset { name: sec.name.clone(), offset_ms: est.offset_ms });
                    },
                    Err(reason) => {
                        statuses.push(
                            SourceStatus {
                                source: sec.name.clone(),
                                outcome: AlignOutcome::Defaulted { reason },
                            },
                        );
                        logs.push(warn_line(&sec.name));
                        offsets.push(RawOffset { name: sec.name.clone(), offset_ms: 0 });
                    },
                }
            }
            proof {
                assert forall|j: int|
                    0 <= j < i + 1 && (#[trigger] statuses@[j]).outcome is Defaulted implies
                    log_contains(logs@, warn_line_spec(audio@[j].name@)) by {
                    let w = warn_line_spec(audio@[j].name@);
                    if j < i {
                        let l = choose|l: int|
                            0 <= l < logs_at_entry.len() && logs_at_entry[l]@ == w;
                        assert(logs@[l]@ == w);
                    } else {
                        assert(logs@[logs@.len() - 1]@ == w);
                    }
                }
            }
            i += 1;
        }
        proof {
            assert(offsets_view(offsets@) =~= raws);
            lemma_min_properties(offsets_view(offsets@));
        }
        let delays = aggregate_delays(&offsets);
        proof {
            assert(offsets_view(offsets@)[0] == 0);
            assert(offsets_view(offsets@).min() <= 0);
        }
        let mut enriched = context;
        enriched.delays = Some(delays);
        Ok(AnalysisOutcome { context: enriched, statuses, logs })
    }
}

/// Everything the collaborators supply for one run: the probed track
/// lists, the sampled audio (aligned with the job's sources, reference
/// first), the sampling geometry, the source chapters and the output
/// video track's keyframes, the answers the cooperative cancellation
/// checks will get, and what the merge writer reported.
#[derive(Clone, Debug)]
pub struct ProbedInputs {
    pub tracks: Vec<Track>,
    pub audio: Vec<SourceAudio>,
    pub bucket_ms: u64,
    pub max_shift_buckets: usize,
    pub chapters: Vec<Chapter>,
    pub keyframes: Vec<u64>,
    pub cancel_polls: Vec<bool>,
    pub merge_outcome: MergeOutcome,
}

/// The collaborator inputs a run can accept for this context.
pub open spec fn inputs_wf(inp: ProbedInputs, ctx: Context) -> bool {
    &&& inp.audio@.len() == ctx.sources@.len()
    &&& inp.audio@.len() >= 1
    &&& audio_matches_sources(inp.audio@, ctx.sources@)
    &&& source_names_unique(ctx.sources@)
    &&& audio_wf(inp.audio@)
    &&& 1 <= inp.bucket_ms <= MAX_BUCKET_MS
    &&& inp.max_shift_buckets <= MAX_BUCKETS
    &&& inp.chapters@.len() <= 0xFFFF_FFFF
}

/// The answer the `i`-th cooperative cancellation check gets; checks
/// beyond the supplied list see no cancellation.
pub open spec fn poll_at(polls: Seq<bool>, i: int) -> bool {
    0 <= i < polls.len() && polls[i]
}

/// The terminal state a run must reach: cancellation is checked
/// before validation, before analysis and before merge; validation
/// and the reference's alignability decide analysis; `and_merge`
/// decides whether the job stops at `Analyzed`; the merge writer's
/// report decides the rest.
pub open spec fn expected_state(
    ctx: Context,
    layout: Seq<TrackSelection>,
    inp: ProbedInputs,
) -> PipelineState {
    if poll_at(inp.cancel_polls@, 0) {
        PipelineState::Cancelled
    } else if !layout_valid(layout, ctx.sources@, inp.tracks@) {
        PipelineState::AnalysisFailed
    } else if poll_at(inp.cancel_polls@, 1) {
        PipelineState::Cancelled
    } else if !reference_alignable(inp.audio@) {
        PipelineState::AnalysisFailed
    } else if !ctx.and_merge {
        PipelineState::Analyzed
    } else if poll_at(inp.cancel_polls@, 2) {
        PipelineState::Cancelled
    } else if inp.merge_outcome is Success {
        PipelineState::Completed
    } else {
        PipelineState::MergeFailed
    }
}

/// The error a run must report, if any.
pub open spec fn expected_error(
    ctx: Context,
    layout: Seq<TrackSelection>,
    inp: ProbedInputs,
) -> Option<PipelineError> {
    if poll_at(inp.cancel_polls@, 0) {
        None
    } else if !layout_valid(layout, ctx.sources@, inp.tracks@) {
        Some(PipelineError::TrackSelectionInvalid)
    } else if poll_at(inp.cancel_polls@, 1) {
        None
    } else if !inp.audio@[0].has_audio {
        Some(PipelineError::NoAudioTrack)
    } else if chunks_energy(inp.audio@[0].chunks@) == 0 {
        Some(PipelineError::InsufficientSignal)
    } else if !ctx.and_merge {
        None
    } else if poll_at(inp.cancel_polls@, 2) {
        None
    } else if inp.merge_outcome is Success {
        None
    } else {
        Some(
            PipelineError::MergeIoFailure {
                out_of_space: inp.merge_outcome is OutOfSpace,
            },
        )
    }
}

/// Analysis runs to completion exactly when nothing stopped the job
/// before it and the reference could be aligned against.
pub open spec fn analysis_runs(ctx: Context, layout: Seq<TrackSelection>, inp: ProbedInputs) -> bool {
    &&& !poll_at(inp.cancel_polls@, 0)
    &&& layout_valid(layout, ctx.sources@, inp.tracks@)
    &&& !poll_at(inp.cancel_polls@, 1)
    &&& reference_alignable(inp.audio@)
}

/// The merge step is attempted exactly when analysis ran, the job
/// asked for a merge, and no cancellation arrived in between.
pub open spec fn merge_runs(ctx: Context, layout: Seq<TrackSelection>, inp: ProbedInputs) -> bool {
    &&& analysis_runs(ctx, layout, inp)
    &&& ctx.and_merge
    &&& !poll_at(inp.cancel_polls@, 2)
}

/// The record of one finished run that the collaborator reads.
pub struct JobRun {
    /// The terminal state the job reached.
    pub state: PipelineState,
    /// The context, enriched with delays when analysis ran.
    pub context: Context,
    /// One analysis record per source, empty when analysis never ran.
    pub statuses: Vec<SourceStatus>,
    /// The failing step's error, `None` for `Analyzed`, `Completed`
    /// and `Cancelled`.
    pub error: Option<PipelineError>,
    /// The muxer's plan, present exactly when the merge was attempted.
    pub plan: Option<MergePlan>,
    /// The normalized chapter list for the output, present with the plan.
    pub chapters: Option<Vec<Chapter>>,
    /// Whether an output container now exists.
    pub output_written: bool,
    /// The job's temp subdirectory is always removed when a run ends.
    pub cleanup_temp: bool,
    /// Human-readable lines explaining the run, in order.
    pub logs: Vec<String>,
}

pub struct Orchestrator {}

impl Orchestrator {
    pub fn new() -> (s: Orchestrator) {
        Orchestrator {  }
    }

    /// Run the ordered steps of one job over its context: check for
    /// cancellation, validate the requested layout, analyze, and — for
    /// jobs that ask for it — plan the merge, normalize the chapters
    /// and record the merge writer's outcome. Pure with respect to the
    /// collaborator inputs; the returned record says exactly which
    /// terminal state was reached and why.
    pub fn run(&self, context: Context, layout: &Vec<TrackSelection>, inputs: &ProbedInputs) -> (r:
        JobRun)
        requires
            inputs_wf(*inputs, context),
            context.delays is None,
        ensures
            r.state == expected_state(context, layout@, *inputs),
            r.error == expected_error(context, layout@, *inputs),
            r.context.same_base(context),
            r.cleanup_temp,
            r.output_written <==> r.state is Completed,
            r.logs@.len() > 0,
            r.error == Some(PipelineError::TrackSelectionInvalid) ==> log_contains(
                r.logs@,
                "track selection references a missing or mismatched track"@,
            ),
            r.error == Some(PipelineError::NoAudioTrack) ==> log_contains(
                r.logs@,
                "reference source has no usable audio track"@,
            ),
            r.error == Some(PipelineError::InsufficientSignal) ==> log_contains(
                r.logs@,
                "reference source is silent in every sampled chunk"@,
            ),
            r.error == Some(PipelineError::MergeIoFailure { out_of_space: false })
                ==> log_contains(r.logs@, "merge failed: container or codec error"@),
            r.error == Some(PipelineError::MergeIoFailure { out_of_space: true }) ==> log_contains(
                r.logs@,
                "merge failed: not enough free space"@,
            ),
            r.state is Cancelled ==> log_contains(r.logs@, "cancellation observed, job cancelled"@),
            analysis_runs(context, layout@, *inputs) ==> {
                &&& r.context.delays is Some
                &&& delays_match(
                    r.context.delays->0,
                    inputs.audio@,
                    inputs.max_shift_buckets as int,
                    inputs.bucket_ms as int,
                    context.settings.min_match_centi_pct as int,
                )
                &&& r.statuses@.len() == inputs.audio@.len()
                &&& forall|i: int|
                    0 <= i < inputs.audio@.len() ==> status_matches(
                        #[trigger] r.statuses@[i],
                        inputs.audio@,
                        i,
                        inputs.max_shift_buckets as int,
                        inputs.bucket_ms as int,
                        context.settings.min_match_centi_pct as int,
                    )
                &&& forall|i: int|
                    0 <= i < inputs.audio@.len() && (#[trigger] r.statuses@[i]).outcome
                        is Defaulted ==> log_contains(
                        r.logs@,
                        warn_line_spec(inputs.audio@[i].name@),
                    )
            },
            !analysis_runs(context, layout@, *inputs) ==> r.context.delays is None
                && r.statuses@.len() == 0,
            merge_runs(context, layout@, *inputs) <==> r.plan is Some,
            merge_runs(context, layout@, *inputs) ==> {
                &&& plan_matches(r.plan->0, layout@, r.context.delays->0.source_delays_ms@)
                &&& r.plan->0.disable_track_statistics_tags
                    == context.settings.disable_track_statistics_tags
                &&& r.plan->0.disable_header_compression
                    == context.settings.disable_header_compression
                &&& r.chapters is Some
                &&& normalized_chapters_match(
                    r.chapters->0@,
                    inputs.chapters@,
                    inputs.keyframes@,
                    context.settings,
                )
            },
            !merge_runs(context, layout@, *inputs) ==> r.chapters is None,
    {
        let mut logs: Vec<String> = Vec::new();
        logs.push(String::from_str("job started"));
        if poll_cancel(&inputs.cancel_polls, 0) {
            logs.push(String::from_str("cancellation observed, job cancelled"));
            proof {
                assert(logs@[logs@.len() - 1]@ == "cancellation observed, job cancelled"@);
            }
            return JobRun {
                state: PipelineState::Cancelled,
                context,
                statuses: Vec::new(),
                error: None,
                plan: None,
                chapters: None,
                output_written: false,
                cleanup_temp: true,
                logs,
            };
        }
        if let Err(e) = validate_layout(layout, &context.sources, &inputs.tracks) {
            logs.push(String::from_str("track selection references a missing or mismatched track"));
            proof {
                assert(logs@[logs@.len() - 1]@
                    == "track selection references a missing or mismatched track"@);
            }
            return JobRun {
                state: PipelineState::AnalysisFailed,
                context,
                statuses: Vec::new(),
                error: Some(e),
                plan: None,
                chapters: None,
                output_written: false,
                cleanup_temp: true,
                logs,
            };
        }
        if poll_cancel(&inputs.cancel_polls, 1) {
            logs.push(String::from_str("cancellation observed, job cancelled"));
            proof {
                assert(logs@[logs@.len() - 1]@ == "cancellation observed, job cancelled"@);
            }
            return JobRun {
                state: PipelineState::Cancelled,
                context,
                statuses: Vec::new(),
                error: None,
                plan: None,
                chapters: None,
                output_written: false,
                cleanup_temp: true,
                logs,
            };
        }
        if !inputs.audio[0].has_audio {
            logs.push(String::from_str("reference source has no usable audio track"));
            proof {
                assert(logs@[logs@.len() - 1]@ == "reference source has no usable audio track"@);
            }
            return JobRun {
                state: PipelineState::AnalysisFailed,
                context,
                statuses: Vec::new(),
                error: Some(PipelineError::NoAudioTrack),
                plan: None,
                chapters: None,
                output_written: false,
                cleanup_temp: true,
                logs,
            };
        }
        if total_energy(&inputs.audio[0].chunks) == 0 {
            logs.push(String::from_str("reference source is silent in every sampled chunk"));
            proof {
                assert(logs@[logs@.len() - 1]@
                    == "reference source is silent in every sampled chunk"@);
            }
            return JobRun {
                state: PipelineState::AnalysisFailed,
                context,
                statuses: Vec::new(),
                error: Some(PipelineError::InsufficientSignal),
                plan: None,
                chapters: None,
                output_written: false,
                cleanup_temp: true,
                logs,
            };
        }
        let outcome = match AnalysisStep::run(
            context,
            &inputs.audio,
            inputs.bucket_ms,
            inputs.max_shift_buckets,
        ) {
            Ok(out) => out,
            Err(_) => unreached(),
        };
        let context = outcome.context;
        let statuses = outcome.statuses;
        let mut analysis_logs = outcome.logs;
        let ghost pre_logs = logs@;
        let ghost alogs = analysis_logs@;
        logs.append(&mut analysis_logs);
        logs.push(String::from_str("analysis complete"));
        if !context.and_merge {
            logs.push(String::from_str("analyze-only job: stopping after analysis"));
            proof {
                assert forall|i: int|
                    0 <= i < inputs.audio@.len() && (#[trigger] statuses@[i]).outcome
                        is Defaulted implies log_contains(
                    logs@,
                    warn_line_spec(inputs.audio@[i].name@),
                ) by {
                    let w = warn_line_spec(inputs.audio@[i].name@);
                    let l = choose|l: int| 0 <= l < alogs.len() && alogs[l]@ == w;
                    assert(logs@[pre_logs.len() + l]@ == w);
                }
            }
            return JobRun {
                state: PipelineState::Analyzed,
                context,
                statuses,
                error: None,
                plan: None,
                chapters: None,
                output_written: false,
                cleanup_temp: true,
                logs,
            };
        }
        if poll_cancel(&inputs.cancel_polls, 2) {
            logs.push(String::from_str("cancellation observed, job cancelled"));
            proof {
                assert(logs@[logs@.len() - 1]@ == "cancellation observed, job cancelled"@);
            }
            proof {
                assert forall|i: int|
                    0 <= i < inputs.audio@.len() && (#[trigger] statuses@[i]).outcome
                        is Defaulted implies log_contains(
                    logs@,
                    warn_line_spec(inputs.audio@[i].name@),
                ) by {
                    let w = warn_line_spec(inputs.audio@[i].name@);
                    let l = choose|l: int| 0 <= l < alogs.len() && alogs[l]@ == w;
                    assert(logs@[pre_logs.len() + l]@ == w);
                }
            }
            return JobRun {
                state: PipelineState::Cancelled,
                context,
                statuses,
                error: None,
                plan: None,
                chapters: None,
                output_written: false,
                cleanup_temp: true,
                logs,
            };
        }
        let delays_ref = match &context.delays {
            Some(d) => d,
            None => unreached(),
        };
        let plan = build_merge_plan(
            layout,
            delays_ref,
            context.settings.disable_track_statistics_tags,
            context.settings.disable_header_compression,
        );
        let normalized = normalize_chapters(
            &inputs.chapters,
            &inputs.keyframes,
            context.settings.rename_chapters,
            context.settings.snap_chapters,
            context.settings.snap_threshold_ms,
        );
        match inputs.merge_outcome {
            MergeOutcome::Success => {
                logs.push(String::from_str("merge complete"));
                proof {
                    assert(logs@[logs@.len() - 1]@ == "merge complete"@);
                    assert forall|i: int|
                        0 <= i < inputs.audio@.len() && (#[trigger] statuses@[i]).outcome
                            is Defaulted implies log_contains(
                        logs@,
                        warn_line_spec(inputs.audio@[i].name@),
                    ) by {
                        let w = warn_line_spec(inputs.audio@[i].name@);
                        let l = choose|l: int| 0 <= l < alogs.len() && alogs[l]@ == w;
                        assert(logs@[pre_logs.len() + l]@ == w);
                    }
                }
                JobRun {
                    state: PipelineState::Completed,
                    context,
                    statuses,
                    error: None,
                    plan: Some(plan),
                    chapters: Some(normalized),
                    output_written: true,
                    cleanup_temp: true,
                    logs,
                }
            },
            MergeOutcome::IoError => {
                logs.push(String::from_str("merge failed: container or codec error"));
                proof {
                    assert(logs@[logs@.len() - 1]@ == "merge failed: container or codec error"@);
                    assert forall|i: int|
                        0 <= i < inputs.audio@.len() && (#[trigger] statuses@[i]).outcome
                            is Defaulted implies log_contains(
                        logs@,
                        warn_line_spec(inputs.audio@[i].name@),
                    ) by {
                        let w = warn_line_spec(inputs.audio@[i].name@);
                        let l = choose|l: int| 0 <= l < alogs.len() && alogs[l]@ == w;
                        assert(logs@[pre_logs.len() + l]@ == w);
                    }
                }
                JobRun {
                    state: PipelineState::MergeFailed,
                    context,
                    statuses,
                    error: Some(PipelineError::MergeIoFailure { out_of_space: false }),
                    plan: Some(plan),
                    chapters: Some(normalized),
                    output_written: false,
                    cleanup_temp: true,
                    logs,
                }
            },
            MergeOutcome::OutOfSpace => {
                logs.push(String::from_str("merge failed: not enough free space"));
                proof {
                    assert(logs@[logs@.len() - 1]@ == "merge failed: not enough free space"@);
                    assert forall|i: int|
                        0 <= i < inputs.audio@.len() && (#[trigger] statuses@[i]).outcome
                            is Defaulted implies log_contains(
                        logs@,
                        warn_line_spec(inputs.audio@[i].name@),
                    ) by {
                        let w = warn_line_spec(inputs.audio@[i].name@);
                        let l = choose|l: int| 0 <= l < alogs.len() && alogs[l]@ == w;
                        assert(logs@[pre_logs.len() + l]@ == w);
                    }
                }
                JobRun {
                    state: PipelineState::MergeFailed,
                    context,
                    statuses,
                    error: Some(PipelineError::MergeIoFailure { out_of_space: true }),
                    plan: Some(plan),
                    chapters: Some(normalized),
                    output_written: false,
                    cleanup_temp: true,
                    logs,
                }
            },
        }
    }
}

/// What the normalized chapter list a run hands the muxer must say:
/// the two transforms of the Chapter Normalizer, as the settings gate
/// them.
pub open spec fn normalized_chapters_match(
    out: Seq<Chapter>,
    input: Seq<Chapter>,
    keyframes: Seq<u64>,
    settings: crate::config::AppConfig,
) -> bool {
    &&& out.len() == input.len()
    &&& forall|i: int|
        0 <= i < out.len() ==> (#[trigger] out[i]).title@ == (if settings.rename_chapters {
            chapter_title_spec(i + 1)
        } else {
            input[i].title@
        })
    &&& forall|i: int|
        0 <= i < out.len() ==> (if settings.snap_chapters {
            snapped_spec(
                input[i].time_ms as int,
                keyframes,
                settings.snap_threshold_ms as int,
                (#[trigger] out[i]).time_ms as int,
            )
        } else {
            (#[trigger] out[i]).time_ms == input[i].time_ms
        })
}

/// A job's progress as reported to the collaborator: a fraction in
/// thousandths, monotonically non-decreasing by construction and
/// never above one.
pub struct Progress {
    milli: u32,
}

impl Progress {
    /// The reported fraction, in thousandths of the whole.
    pub closed spec fn value(self) -> int {
        self.milli as int
    }

    pub closed spec fn wf(self) -> bool {
        self.milli <= 1000
    }

    /// A fresh job reports zero progress.
    pub fn new() -> (p: Progress)
        ensures
            p.wf(),
            p.value() == 0,
    {
        Progress { milli: 0 }
    }

    /// Report progress of `milli` thousandths. A report below the
    /// current fraction, or above the whole, is clamped: what the
    /// collaborator sees never decreases and never passes one.
    pub fn advance_to(&mut self, milli: u32)
        requires
            old(self).wf(),
        ensures
            final(self).wf(),
            final(self).value() == vstd::math::max(
                old(self).value(),
                vstd::math::min(milli as int, 1000),
            ),
            final(self).value() >= old(self).value(),
    {
        let capped = if milli > 1000 {
            1000
        } else {
            milli
        };
        if capped > self.milli {
            self.milli = capped;
        }
    }

    /// Read the current fraction, in thousandths.
    pub fn current_milli(&self) -> (m: u32)
        ensures
            m as int == self.value(),
    {
        self.milli
    }
}

/// One cooperative cancellation check: the `i`-th answer of the
/// collaborator's schedule, no cancellation past its end.
fn poll_cancel(polls: &Vec<bool>, i: usize) -> (r: bool)
    ensures
        r == poll_at(polls@, i as int),
{
    if i < polls.len() {
        polls[i]
    } else {
        false
    }
}

} // verus!
