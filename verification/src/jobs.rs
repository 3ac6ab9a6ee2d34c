//! Job model: the declarative description of one merge unit, and the
//! validation of its requested track layout against probed tracks.

use vstd::prelude::*;
use crate::errors::PipelineError;
use crate::media::{Track, TrackType};

verus! {

/// One named input file of a job. Identity is the name; the path is
/// whatever the collaborator hands the probe.
#[derive(Clone, Debug)]
pub struct SourceEntry {
    pub name: String,
    pub path: String,
}

/// One entry of the desired output layout: a reference to a probed
/// track by owning source, in-source id and expected kind.
#[derive(Clone, Debug)]
pub struct TrackSelection {
    pub source: String,
    pub id: u32,
    pub track_type: TrackType,
}

/// The declarative spec of one merge unit: a source mapping with unique
/// names and a manually ordered track layout. Order of `manual_layout`
/// determines output track order.
#[derive(Clone, Debug)]
pub struct JobSpec {
    pub sources: Vec<SourceEntry>,
    pub manual_layout: Vec<TrackSelection>,
}

/// Which of the three quick-analysis slots a source was entered in.
#[derive(Clone, Copy, Debug, PartialEq, Eq, Structural)]
pub enum QuickAnalysisSource {
    Reference,
    Secondary,
    Tertiary,
}

/// Which of the three source path fields of the main form changed.
#[derive(Clone, Copy, Debug, PartialEq, Eq, Structural)]
pub enum SourceField {
    Source1,
    Source2,
    Source3,
}

/// No two entries share a name: the source set is a mapping.
pub open spec fn source_names_unique(sources: Seq<SourceEntry>) -> bool {
    forall|i: int, j: int|
        0 <= i < j < sources.len() ==> sources[i].name@ != sources[j].name@
}

/// Some entry carries this name.
pub open spec fn has_source(sources: Seq<SourceEntry>, name: Seq<char>) -> bool {
    exists|i: int| 0 <= i < sources.len() && sources[i].name@ == name
}

/// The selection points at exactly this physical track, with the kind
/// it was selected as.
pub open spec fn selection_matches_track(sel: TrackSelection, t: Track) -> bool {
    &&& sel.source@ == t.source@
    &&& sel.id == t.id
    &&& sel.track_type == t.track_type
}

/// The selection references a source of the job and a probed track of
/// matching kind.
pub open spec fn selection_valid(
    sel: TrackSelection,
    sources: Seq<SourceEntry>,
    tracks: Seq<Track>,
) -> bool {
    &&& has_source(sources, sel.source@)
    &&& exists|j: int| 0 <= j < tracks.len() && selection_matches_track(sel, tracks[j])
}

/// Every entry of the layout is valid.
pub open spec fn layout_valid(
    layout: Seq<TrackSelection>,
    sources: Seq<SourceEntry>,
    tracks: Seq<Track>,
) -> bool {
    forall|i: int| 0 <= i < layout.len() ==> selection_valid(#[trigger] layout[i], sources, tracks)
}

/// Index of the entry named `name`, if any.
pub fn source_index(sources: &Vec<SourceEntry>, name: &String) -> (r: Option<usize>)
    ensures
        match r {
            Some(i) => i < sources@.len() && sources@[i as int].name@ == name@,
            None => !has_source(sources@, name@),
        },
{
    let mut i: usize = 0;
    while i < sources.len()
        invariant
            i <= sources@.len(),
            forall|k: int| 0 <= k < i ==> sources@[k].name@ != name@,
        decreases sources@.len() - i,
    {
        if sources[i].name == *name {
            return Some(i);
        }
        i += 1;
    }
    None
}

impl JobSpec {
    /// A job is well formed when its source names are unique.
    pub open spec fn wf(self) -> bool {
        source_names_unique(self.sources@)
    }

    /// Index of the entry named `name`, if any.
    pub fn find_source(&self, name: &String) -> (r: Option<usize>)
        ensures
            match r {
                Some(i) => i < self.sources@.len() && self.sources@[i as int].name@ == name@,
                None => !has_source(self.sources@, name@),
            },
    {
        source_index(&self.sources, name)
    }
}

/// Does any probed track match this selection?
fn selection_has_track(sel: &TrackSelection, tracks: &Vec<Track>) -> (r: bool)
    ensures
        r == exists|j: int|
            0 <= j < tracks@.len() && selection_matches_track(*sel, tracks@[j]),
{
    let mut j: usize = 0;
    while j < tracks.len()
        invariant
            j <= tracks@.len(),
            forall|k: int| 0 <= k < j ==> !selection_matches_track(*sel, tracks@[k]),
        decreases tracks@.len() - j,
    {
        let t = &tracks[j];
        if sel.source == t.source && sel.id == t.id && sel.track_type == t.track_type {
            assert(selection_matches_track(*sel, tracks@[j as int]));
            return true;
        }
        j += 1;
    }
    false
}

/// The selection that picks exactly this probed track.
pub open spec fn selection_of(t: Track) -> TrackSelection {
    TrackSelection { source: t.source, id: t.id, track_type: t.track_type }
}

/// The selections for one source: its tracks among the first `n`
/// probed ones, in probe order.
pub open spec fn source_selections_upto(tracks: Seq<Track>, name: Seq<char>, n: int) -> Seq<
    TrackSelection,
>
    decreases n,
{
    if n <= 0 {
        Seq::empty()
    } else if tracks[n - 1].source@ == name {
        source_selections_upto(tracks, name, n - 1).push(selection_of(tracks[n - 1]))
    } else {
        source_selections_upto(tracks, name, n - 1)
    }
}

/// The default layout over the first `i` sources: every probed track,
/// grouped by source in the job's source order, reference first.
pub open spec fn default_layout_upto(
    sources: Seq<SourceEntry>,
    tracks: Seq<Track>,
    i: int,
) -> Seq<TrackSelection>
    decreases i,
{
    if i <= 0 {
        Seq::empty()
    } else {
        default_layout_upto(sources, tracks, i - 1) + source_selections_upto(
            tracks,
            sources[i - 1].name@,
            tracks.len() as int,
        )
    }
}

/// The layout of the default "all tracks, reference order" policy.
pub open spec fn default_layout_spec(sources: Seq<SourceEntry>, tracks: Seq<Track>) -> Seq<
    TrackSelection,
> {
    default_layout_upto(sources, tracks, sources.len() as int)
}

/// Every selection of one source's group is valid.
proof fn lemma_source_selections_valid(
    tracks: Seq<Track>,
    name: Seq<char>,
    n: int,
    sources: Seq<SourceEntry>,
)
    requires
        has_source(sources, name),
        n <= tracks.len(),
    ensures
        forall|k: int|
            0 <= k < source_selections_upto(tracks, name, n).len() ==> selection_valid(
                #[trigger] source_selections_upto(tracks, name, n)[k],
                sources,
                tracks,
            ),
    decreases n,
{
    if n > 0 {
        lemma_source_selections_valid(tracks, name, n - 1, sources);
        let prev = source_selections_upto(tracks, name, n - 1);
        let cur = source_selections_upto(tracks, name, n);
        if tracks[n - 1].source@ == name {
            assert(selection_matches_track(selection_of(tracks[n - 1]), tracks[n - 1]));
            assert forall|k: int| 0 <= k < cur.len() implies selection_valid(
                #[trigger] cur[k],
                sources,
                tracks,
            ) by {
                if k < prev.len() {
                    assert(cur[k] == prev[k]);
                }
            }
        }
    }
}

/// Build the default "all tracks, reference order" layout: one
/// selection per probed track, grouped by source in the job's source
/// order. The result always validates against the sources and tracks
/// it was built from.
pub fn default_layout(sources: &Vec<SourceEntry>, tracks: &Vec<Track>) -> (r: Vec<TrackSelection>)
    ensures
        r@ == default_layout_spec(sources@, tracks@),
        layout_valid(r@, sources@, tracks@),
{
    let mut r: Vec<TrackSelection> = Vec::new();
    let mut i: usize = 0;
    while i < sources.len()
        invariant
            i <= sources@.len(),
            r@ == default_layout_upto(sources@, tracks@, i as int),
            forall|k: int|
                0 <= k < r@.len() ==> selection_valid(#[trigger] r@[k], sources@, tracks@),
        decreases sources@.len() - i,
    {
        let name = &sources[i].name;
        let ghost before = r@;
        let mut j: usize = 0;
        while j < tracks.len()
            invariant
                j <= tracks@.len(),
                i < sources@.len(),
                name@ == sources@[i as int].name@,
                r@ == before + source_selections_upto(tracks@, name@, j as int),
            decreases tracks@.len() - j,
        {
            let t = &tracks[j];
            if t.source == *name {
                r.push(
                    TrackSelection {
                        source: t.source.clone(),
                        id: t.id,
                        track_type: t.track_type,
                    },
                );
                proof {
                    assert(r@ =~= before + source_selections_upto(tracks@, name@, j + 1));
                }
            }
            j += 1;
        }
        proof {
            assert(exists|k: int|
                0 <= k < sources@.len() && sources@[k].name@ == name@);
            lemma_source_selections_valid(tracks@, name@, tracks@.len() as int, sources@);
            let added = source_selections_upto(tracks@, name@, tracks@.len() as int);
            assert forall|k: int| 0 <= k < r@.len() implies selection_valid(
                #[trigger] r@[k],
                sources@,
                tracks@,
            ) by {
                if k < before.len() {
                    assert(r@[k] == before[k]);
                } else {
                    assert(r@[k] == added[k - before.len()]);
                }
            }
        }
        i += 1;
    }
    r
}

/// Check the whole requested layout before any decode work begins.
///
/// Returns `Ok` exactly when every selection references an existing
/// source of the job and a probed track of matching kind; otherwise
/// `TrackSelectionInvalid`. Duplicate selections are permitted: the
/// layout is manual, so a repeated track is an intentional duplicate.
pub fn validate_layout(
    layout: &Vec<TrackSelection>,
    sources: &Vec<SourceEntry>,
    tracks: &Vec<Track>,
) -> (r: Result<(), PipelineError>)
    ensures
        r is Ok <==> layout_valid(layout@, sources@, tracks@),
        r is Err ==> r->Err_0 == PipelineError::TrackSelectionInvalid,
{
    let mut i: usize = 0;
    while i < layout.len()
        invariant
            i <= layout@.len(),
            forall|k: int|
                0 <= k < i ==> selection_valid(#[trigger] layout@[k], sources@, tracks@),
        decreases layout@.len() - i,
    {
        let sel = &layout[i];
        let source_known = source_index(sources, &sel.source).is_some();
        if !source_known || !selection_has_track(sel, tracks) {
            return Err(PipelineError::TrackSelectionInvalid);
        }
        i += 1;
    }
    Ok(())
}

} // verus!
