//! The pipeline's unit of work, threaded through the ordered steps.
//!
//! Steps only add to the optional fields; nothing a step filled is
//! ever overwritten or deleted by a later one.

use vstd::prelude::*;
use crate::aggregate::Delays;
use crate::config::AppConfig;
use crate::jobs::{JobSpec, SourceEntry};

verus! {

/// Pipeline context that is passed through all steps of one job.
#[derive(Clone, Debug)]
pub struct Context {
    /// Snapshot of the user settings at job submission.
    pub settings: AppConfig,
    /// The job's named input files; the first entry is the reference.
    pub sources: Vec<SourceEntry>,
    /// Whether to run the merge after analysis, or analyze only.
    pub and_merge: bool,
    /// This job's exclusive temp subdirectory.
    pub temp_dir: String,
    /// The shared output directory.
    pub output_dir: String,
    /// Filled by the Analysis step.
    pub delays: Option<Delays>,
}

/// A name-and-path copy of a source list.
fn copy_sources(sources: &Vec<SourceEntry>) -> (r: Vec<SourceEntry>)
    ensures
        r@.len() == sources@.len(),
        forall|i: int|
            0 <= i < sources@.len() ==> (#[trigger] r@[i]).name@ == sources@[i].name@
                && r@[i].path@ == sources@[i].path@,
{
    let mut r: Vec<SourceEntry> = Vec::new();
    let mut i: usize = 0;
    while i < sources.len()
        invariant
            i <= sources@.len(),
            r@.len() == i,
            forall|j: int|
                0 <= j < i ==> (#[trigger] r@[j]).name@ == sources@[j].name@ && r@[j].path@
                    == sources@[j].path@,
        decreases sources@.len() - i,
    {
        r.push(
            SourceEntry { name: sources[i].name.clone(), path: sources[i].path.clone() },
        );
        i += 1;
    }
    r
}

impl Context {
    /// Open a context for one submitted job: a snapshot of the job's
    /// sources and the settings, with nothing analyzed yet. A well
    /// formed job (unique source names) yields a context whose source
    /// set is a mapping too.
    pub fn for_job(
        job: &JobSpec,
        settings: AppConfig,
        and_merge: bool,
        temp_dir: String,
        output_dir: String,
    ) -> (c: Context)
        requires
            job.wf(),
        ensures
            crate::jobs::source_names_unique(c.sources@),
            c.settings == settings,
            c.sources@.len() == job.sources@.len(),
            forall|i: int|
                0 <= i < job.sources@.len() ==> (#[trigger] c.sources@[i]).name@
                    == job.sources@[i].name@ && c.sources@[i].path@ == job.sources@[i].path@,
            c.and_merge == and_merge,
            c.temp_dir == temp_dir,
            c.output_dir == output_dir,
            c.delays is None,
    {
        Context {
            settings,
            sources: copy_sources(&job.sources),
            and_merge,
            temp_dir,
            output_dir,
            delays: None,
        }
    }

    /// The fields that steps never touch are the same in both
    /// contexts: enrichment is append-only.
    pub open spec fn same_base(self, other: Context) -> bool {
        &&& self.settings == other.settings
        &&& self.sources == other.sources
        &&& self.and_merge == other.and_merge
        &&& self.temp_dir == other.temp_dir
        &&& self.output_dir == other.output_dir
    }
}

} // verus!
