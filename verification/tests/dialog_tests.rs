use video_sync_merger::queue::{Job, JobQueueDialog};
use video_sync_merger::selection::{ManualSelectionDialog, TrackInfo};

fn job(status: &str) -> Job {
    Job { status: String::from(status), sources: vec![String::from("a"), String::from("b")] }
}

fn info(source: &str, id: u32) -> TrackInfo {
    TrackInfo {
        source: String::from(source),
        id,
        track_type: String::from("audio"),
        codec: String::from("AAC"),
        lang: String::from("eng"),
        name: String::new(),
    }
}

#[test]
fn queue_starts_empty() {
    let q = JobQueueDialog::new();
    assert_eq!(q.len(), 0);
}

#[test]
fn queue_add_select_remove() {
    let mut q = JobQueueDialog::new();
    q.add_job(job("queued"));
    q.add_job(job("queued"));
    assert_eq!(q.len(), 2);
    q.select_job(1);
    q.remove_selected();
    assert_eq!(q.len(), 1);
    // Removing again without a selection changes nothing.
    q.remove_selected();
    assert_eq!(q.len(), 1);
}

#[test]
fn queue_move_up_and_down_keep_selection() {
    let mut q = JobQueueDialog::new();
    q.add_job(job("first"));
    q.add_job(job("second"));
    q.add_job(job("third"));
    q.select_job(2);
    q.move_up();
    assert_eq!(q.job_at(1).status, "third");
    assert_eq!(q.job_at(2).status, "second");
    q.move_up();
    assert_eq!(q.job_at(0).status, "third");
    // At the top: a further move is a no-op.
    q.move_up();
    assert_eq!(q.job_at(0).status, "third");
    q.move_down();
    assert_eq!(q.job_at(0).status, "first");
    assert_eq!(q.job_at(1).status, "third");
}

#[test]
fn queue_move_with_empty_queue_is_safe() {
    let mut q = JobQueueDialog::new();
    q.move_up();
    q.move_down();
    q.remove_selected();
    assert_eq!(q.len(), 0);
}

#[test]
fn selection_starts_empty() {
    let d = ManualSelectionDialog::new();
    assert_eq!(d.selected_len(), 0);
}

#[test]
fn selection_add_and_remove() {
    let mut d = ManualSelectionDialog::new();
    d.set_available(vec![info("a", 0), info("a", 1), info("b", 0)]);
    d.add_track(0);
    d.add_track(2);
    // An out-of-range add is ignored.
    d.add_track(9);
    assert_eq!(d.selected_len(), 2);
    assert_eq!(d.selected_at(0).source, "a");
    assert_eq!(d.selected_at(1).source, "b");
    d.remove_track(0);
    assert_eq!(d.selected_len(), 1);
    assert_eq!(d.selected_at(0).source, "b");
    // An out-of-range removal is ignored.
    d.remove_track(5);
    assert_eq!(d.selected_len(), 1);
}

#[test]
fn selection_duplicates_are_allowed() {
    let mut d = ManualSelectionDialog::new();
    d.set_available(vec![info("a", 2)]);
    d.add_track(0);
    d.add_track(0);
    assert_eq!(d.selected_len(), 2);
}

#[test]
fn selection_reorders() {
    let mut d = ManualSelectionDialog::new();
    d.set_available(vec![info("a", 0), info("b", 1), info("c", 2)]);
    d.add_track(0);
    d.add_track(1);
    d.add_track(2);
    d.move_up(2);
    assert_eq!(d.selected_at(1).source, "c");
    assert_eq!(d.selected_at(2).source, "b");
    d.move_down(0);
    assert_eq!(d.selected_at(0).source, "c");
    assert_eq!(d.selected_at(1).source, "a");
    // Edges are no-ops.
    d.move_up(0);
    d.move_down(2);
    assert_eq!(d.selected_at(0).source, "c");
    assert_eq!(d.selected_at(2).source, "b");
}

#[test]
fn selection_attachment_sources() {
    let mut d = ManualSelectionDialog::new();
    d.add_attachment_source(String::from("b"));
    assert_eq!(d.selected_len(), 0);
}
