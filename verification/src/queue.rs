//! The job queue's state: an ordered list of queued jobs and one
//! optional selection, with the operations the queue dialog offers.
//! Every operation keeps the selection inside the list.

use vstd::prelude::*;

verus! {

/// One queued merge unit as the queue shows it: its current status
/// line and the names of its sources.
#[derive(Clone, Debug)]
pub struct Job {
    pub status: String,
    pub sources: Vec<String>,
}

/// The queue dialog's state.
pub struct JobQueueDialog {
    jobs: Vec<Job>,
    selected_job: Option<usize>,
}

impl JobQueueDialog {
    /// The selection, when present, points into the job list.
    pub closed spec fn wf(self) -> bool {
        self.selected_job is Some ==> self.selected_job->0 < self.jobs@.len()
    }

    pub closed spec fn jobs_view(self) -> Seq<Job> {
        self.jobs@
    }

    pub closed spec fn selected_view(self) -> Option<usize> {
        self.selected_job
    }

    /// An empty queue with nothing selected.
    pub fn new() -> (s: JobQueueDialog)
        ensures
            s.wf(),
            s.jobs_view().len() == 0,
            s.selected_view() is None,
    {
        JobQueueDialog { jobs: Vec::new(), selected_job: None }
    }

    /// Append a job at the end of the queue.
    pub fn add_job(&mut self, job: Job)
        requires
            old(self).wf(),
        ensures
            final(self).wf(),
            final(self).jobs_view() == old(self).jobs_view().push(job),
            final(self).selected_view() == old(self).selected_view(),
    {
        self.jobs.push(job);
    }

    /// Select the job at `idx` (to configure it); out-of-range
    /// indices are ignored.
    pub fn select_job(&mut self, idx: usize)
        requires
            old(self).wf(),
        ensures
            final(self).wf(),
            final(self).jobs_view() == old(self).jobs_view(),
            idx < old(self).jobs_view().len() ==> final(self).selected_view() == Some(idx),
            idx >= old(self).jobs_view().len() ==> final(self).selected_view() == old(
                self,
            ).selected_view(),
    {
        if idx < self.jobs.len() {
            self.selected_job = Some(idx);
        }
    }

    /// Remove the selected job and clear the selection; a no-op
    /// without a selection.
    pub fn remove_selected(&mut self)
        requires
            old(self).wf(),
        ensures
            final(self).wf(),
            final(self).selected_view() is None,
            match old(self).selected_view() {
                Some(idx) => final(self).jobs_view() == old(self).jobs_view().remove(idx as int),
                None => final(self).jobs_view() == old(self).jobs_view(),
            },
    {
        if let Some(idx) = self.selected_job {
            self.jobs.remove(idx);
            self.selected_job = None;
        } else {
            self.selected_job = None;
        }
    }

    /// Move the selected job one position up, keeping it selected; a
    /// no-op at the top or without a selection.
    pub fn move_up(&mut self)
        requires
            old(self).wf(),
        ensures
            final(self).wf(),
            match old(self).selected_view() {
                Some(idx) => if idx > 0 {
                    &&& final(self).jobs_view() == old(self).jobs_view().update(
                        idx - 1,
                        old(self).jobs_view()[idx as int],
                    ).update(idx as int, old(self).jobs_view()[idx - 1])
                    &&& final(self).selected_view() == Some((idx - 1) as usize)
                } else {
                    &&& final(self).jobs_view() == old(self).jobs_view()
                    &&& final(self).selected_view() == old(self).selected_view()
                },
                None => {
                    &&& final(self).jobs_view() == old(self).jobs_view()
                    &&& final(self).selected_view() is None
                },
            },
    {
        if let Some(idx) = self.selected_job {
            if idx > 0 {
                let ghost before = self.jobs@;
                let moved = self.jobs.remove(idx);
                self.jobs.insert(idx - 1, moved);
                self.selected_job = Some(idx - 1);
                proof {
                    assert(self.jobs@ =~= before.update(idx - 1, before[idx as int]).update(
                        idx as int,
                        before[idx - 1],
                    ));
                }
            }
        }
    }

    /// Move the selected job one position down, keeping it selected;
    /// a no-op at the bottom or without a selection.
    pub fn move_down(&mut self)
        requires
            old(self).wf(),
        ensures
            final(self).wf(),
            match old(self).selected_view() {
                Some(idx) => if idx + 1 < old(self).jobs_view().len() {
                    &&& final(self).jobs_view() == old(self).jobs_view().update(
                        idx as int,
                        old(self).jobs_view()[idx + 1],
                    ).update(idx + 1, old(self).jobs_view()[idx as int])
                    &&& final(self).selected_view() == Some((idx + 1) as usize)
                } else {
                    &&& final(self).jobs_view() == old(self).jobs_view()
                    &&& final(self).selected_view() == old(self).selected_view()
                },
                None => {
                    &&& final(self).jobs_view() == old(self).jobs_view()
                    &&& final(self).selected_view() is None
                },
            },
    {
        if let Some(idx) = self.selected_job {
            let n = self.jobs.len();
            if idx + 1 < n {
                let ghost before = self.jobs@;
                let moved = self.jobs.remove(idx);
                self.jobs.insert(idx + 1, moved);
                self.selected_job = Some(idx + 1);
                proof {
                    assert(self.jobs@ =~= before.update(idx as int, before[idx + 1]).update(
                        idx + 1,
                        before[idx as int],
                    ));
                }
            }
        }
    }

    /// Whether a queued job may start now: at most one job may be in
    /// flight per output path, so a job waits while another job is
    /// already writing its output path.
    pub fn may_start(in_flight_outputs: &Vec<String>, output_path: &String) -> (r: bool)
        ensures
            r <==> forall|i: int|
                0 <= i < in_flight_outputs@.len() ==> (#[trigger] in_flight_outputs@[i])@
                    != output_path@,
    {
        let mut i: usize = 0;
        while i < in_flight_outputs.len()
            invariant
                i <= in_flight_outputs@.len(),
                forall|k: int|
                    0 <= k < i ==> (#[trigger] in_flight_outputs@[k])@ != output_path@,
            decreases in_flight_outputs@.len() - i,
        {
            if in_flight_outputs[i] == *output_path {
                return false;
            }
            i += 1;
        }
        true
    }

    /// How many jobs are queued.
    pub fn len(&self) -> (n: usize)
        ensures
            n == self.jobs_view().len(),
    {
        self.jobs.len()
    }

    /// Read one queued job.
    pub fn job_at(&self, idx: usize) -> (j: &Job)
        requires
            idx < self.jobs_view().len(),
        ensures
            *j == self.jobs_view()[idx as int],
    {
        &self.jobs[idx]
    }
}

} // verus!
