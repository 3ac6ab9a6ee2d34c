//! Merge Writer planning: from the ordered track layout, the resolved
//! delays and the merge flags, compute exactly what the output
//! container must hold. Writing the container is the muxer
//! collaborator's work; it receives this plan.

use vstd::prelude::*;
use crate::aggregate::{Delays, SourceDelay};
use crate::jobs::TrackSelection;
use crate::media::TrackType;

verus! {

/// One output track: the selected physical track and the millisecond
/// shift its timestamps receive.
#[derive(Clone, Debug)]
pub struct PlannedTrack {
    pub source: String,
    pub id: u32,
    pub track_type: TrackType,
    pub delay_ms: i64,
}

/// Everything the muxer needs: the tracks in output order and the two
/// flags, honored exactly as configured.
#[derive(Clone, Debug)]
pub struct MergePlan {
    pub tracks: Vec<PlannedTrack>,
    pub disable_track_statistics_tags: bool,
    pub disable_header_compression: bool,
}

/// The delay resolved for a source: its first entry in the delay
/// table, or zero when it has none (the source is then the alignment
/// anchor).
pub open spec fn delay_for(delays: Seq<SourceDelay>, name: Seq<char>) -> int
    decreases delays.len(),
{
    if delays.len() == 0 {
        0
    } else if delays[0].name@ == name {
        delays[0].delay_ms as int
    } else {
        delay_for(delays.drop_first(), name)
    }
}

/// Entries that do not carry the name can be skipped.
proof fn lemma_delay_for_skip(delays: Seq<SourceDelay>, name: Seq<char>, i: int)
    requires
        0 <= i <= delays.len(),
        forall|k: int| 0 <= k < i ==> (#[trigger] delays[k]).name@ != name,
    ensures
        delay_for(delays, name) == delay_for(delays.skip(i), name),
    decreases i,
{
    if i > 0 {
        assert(delays.skip(i - 1).drop_first() =~= delays.skip(i));
        lemma_delay_for_skip(delays, name, i - 1);
        if delays.skip(i - 1).len() > 0 {
            assert(delays.skip(i - 1)[0] == delays[i - 1]);
        }
    } else {
        assert(delays.skip(0) =~= delays);
    }
}

/// Look a source's resolved delay up, zero when absent.
pub fn lookup_delay(delays: &Delays, name: &String) -> (r: i64)
    ensures
        r as int == delay_for(delays.source_delays_ms@, name@),
{
    let table = &delays.source_delays_ms;
    let mut i: usize = 0;
    while i < table.len()
        invariant
            i <= table@.len(),
            table@ == delays.source_delays_ms@,
            forall|k: int| 0 <= k < i ==> (#[trigger] table@[k]).name@ != name@,
        decreases table@.len() - i,
    {
        if table[i].name == *name {
            proof {
                lemma_delay_for_skip(table@, name@, i as int);
                assert(table@.skip(i as int).len() == table@.len() - i);
                assert(table@.skip(i as int)[0] == table@[i as int]);
                assert(delay_for(table@.skip(i as int), name@) == table@[i as int].delay_ms);
                assert(delay_for(delays.source_delays_ms@, name@) == table@[i as int].delay_ms);
            }
            return table[i].delay_ms;
        }
        i += 1;
    }
    proof {
        lemma_delay_for_skip(table@, name@, table@.len() as int);
        assert(table@.skip(table@.len() as int).len() == 0);
    }
    0
}

/// The plan holds exactly the selected tracks, in the selected order,
/// each shifted by its source's resolved delay.
pub open spec fn plan_matches(
    plan: MergePlan,
    layout: Seq<TrackSelection>,
    delays: Seq<SourceDelay>,
) -> bool {
    &&& plan.tracks.len() == layout.len()
    &&& forall|i: int|
        0 <= i < layout.len() ==> {
            &&& (#[trigger] plan.tracks[i]).source@ == layout[i].source@
            &&& plan.tracks[i].id == layout[i].id
            &&& plan.tracks[i].track_type == layout[i].track_type
            &&& plan.tracks[i].delay_ms as int == delay_for(delays, layout[i].source@)
        }
}

/// Build the muxer's plan from the ordered layout, the resolved
/// delays, and the two merge flags.
pub fn build_merge_plan(
    layout: &Vec<TrackSelection>,
    delays: &Delays,
    disable_track_statistics_tags: bool,
    disable_header_compression: bool,
) -> (r: MergePlan)
    ensures
        plan_matches(r, layout@, delays.source_delays_ms@),
        r.disable_track_statistics_tags == disable_track_statistics_tags,
        r.disable_header_compression == disable_header_compression,
{
    let mut tracks: Vec<PlannedTrack> = Vec::new();
    let mut i: usize = 0;
    while i < layout.len()
        invariant
            i <= layout@.len(),
            tracks@.len() == i,
            forall|j: int|
                0 <= j < i ==> {
                    &&& (#[trigger] tracks@[j]).source@ == layout@[j].source@
                    &&& tracks@[j].id == layout@[j].id
                    &&& tracks@[j].track_type == layout@[j].track_type
                    &&& tracks@[j].delay_ms as int == delay_for(
                        delays.source_delays_ms@,
                        layout@[j].source@,
                    )
                },
        decreases layout@.len() - i,
    {
        let sel = &layout[i];
        let delay_ms = lookup_delay(delays, &sel.source);
        tracks.push(
            PlannedTrack {
                source: sel.source.clone(),
                id: sel.id,
                track_type: sel.track_type,
                delay_ms,
            },
        );
        i += 1;
    }
    MergePlan { tracks, disable_track_statistics_tags, disable_header_compression }
}

} // verus!
