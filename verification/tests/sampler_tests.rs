use video_sync_merger::config::AppConfig;
use video_sync_merger::fingerprint::{effective_chunk_count, fingerprint_chunk, plan_windows};

#[test]
fn windows_are_spread_inside_the_margins() {
    // Two hours, ten windows of 15 s each.
    let d: u64 = 7_200_000;
    let windows = plan_windows(d, 10, 15);
    assert_eq!(windows.len(), 10);
    let margin = d / 20;
    for w in &windows {
        assert!(w.start_ms >= margin);
        assert!(w.start_ms + w.duration_ms <= d - margin);
        assert_eq!(w.duration_ms, 15_000);
    }
    for pair in windows.windows(2) {
        assert!(pair[0].start_ms + pair[0].duration_ms <= pair[1].start_ms);
    }
}

#[test]
fn short_source_reduces_window_count() {
    // 100 s usable stretch of a ~111 s file fits only six 15 s windows.
    let windows = plan_windows(111_000, 10, 15);
    assert_eq!(windows.len(), 6);
}

#[test]
fn tiny_source_yields_no_windows() {
    let windows = plan_windows(5_000, 10, 15);
    assert!(windows.is_empty());
}

#[test]
fn segmented_toggle_decides_window_count() {
    let mut settings = AppConfig::default();
    assert_eq!(effective_chunk_count(&settings), 1);
    settings.segmented_enabled = true;
    assert_eq!(effective_chunk_count(&settings), 10);
}

#[test]
fn envelope_is_mean_magnitude_per_bucket() {
    // Buckets of 4 samples: means of |.| are 2, 5, 0.
    let samples: Vec<i32> = vec![2, -2, 2, -2, 5, 5, -5, -5, 0, 0, 0, 0];
    let fp = fingerprint_chunk(&samples, 4);
    assert_eq!(fp.energies, vec![2, 5, 0]);
}

#[test]
fn trailing_partial_bucket_is_dropped() {
    let samples: Vec<i32> = vec![8, 8, 8, 8, 9, 9];
    let fp = fingerprint_chunk(&samples, 4);
    assert_eq!(fp.energies, vec![8]);
}

#[test]
fn extreme_sample_magnitudes_are_handled() {
    let samples: Vec<i32> = vec![i32::MIN, i32::MIN, i32::MAX, i32::MAX];
    let fp = fingerprint_chunk(&samples, 4);
    // (2^31 + 2^31 + (2^31 - 1) + (2^31 - 1)) / 4
    assert_eq!(fp.energies, vec![(2 * 0x8000_0000u64 + 2 * 0x7FFF_FFFFu64) / 4]);
}
