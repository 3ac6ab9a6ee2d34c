use video_sync_merger::errors::PipelineError;
use video_sync_merger::estimator::{estimate_delay, Fingerprint};

/// A distinctive, non-periodic envelope pattern.
fn pattern(len: usize) -> Vec<u64> {
    (0..len).map(|i| ((i as u64 * 37) % 97) + 1).collect()
}

fn fp(energies: Vec<u64>) -> Fingerprint {
    Fingerprint { energies }
}

/// The secondary's bucket `i` shows what the reference shows at
/// bucket `i + shift`: the secondary started `shift` buckets later.
fn delayed_copy(reference: &[u64], shift: usize) -> Vec<u64> {
    reference[shift..].to_vec()
}

#[test]
fn finds_known_positive_offset() {
    let a = pattern(64);
    let b = delayed_copy(&a, 12);
    let r = estimate_delay(&vec![fp(a)], &vec![fp(b)], 100, 16, 500).unwrap();
    assert_eq!(r.offset_ms, 1200);
    assert!(r.match_centi_pct > 9000);
}

#[test]
fn finds_known_negative_offset() {
    let a = pattern(64);
    // The secondary started 3 buckets earlier: its first 3 buckets
    // precede the reference's start.
    let mut c = vec![0u64, 0, 0];
    c.extend_from_slice(&a[..61]);
    let r = estimate_delay(&vec![fp(a)], &vec![fp(c)], 100, 16, 500).unwrap();
    assert_eq!(r.offset_ms, -300);
}

#[test]
fn zero_offset_for_identical_sources() {
    let a = pattern(48);
    let r = estimate_delay(&vec![fp(a.clone())], &vec![fp(a)], 100, 8, 500).unwrap();
    assert_eq!(r.offset_ms, 0);
    assert_eq!(r.match_centi_pct, 10000);
}

#[test]
fn offset_search_is_antisymmetric() {
    let a = pattern(64);
    let b = delayed_copy(&a, 7);
    let fwd = estimate_delay(&vec![fp(a.clone())], &vec![fp(b.clone())], 100, 16, 0).unwrap();
    let back = estimate_delay(&vec![fp(b)], &vec![fp(a)], 100, 16, 0).unwrap();
    assert_eq!(fwd.offset_ms + back.offset_ms, 0);
}

#[test]
fn silent_secondary_is_insufficient_signal() {
    let a = pattern(32);
    let silent = vec![0u64; 32];
    let r = estimate_delay(&vec![fp(a)], &vec![fp(silent)], 100, 8, 500);
    assert_eq!(r, Err(PipelineError::InsufficientSignal));
}

#[test]
fn empty_chunk_list_is_insufficient_signal() {
    let a = pattern(32);
    let r = estimate_delay(&vec![fp(a)], &vec![], 100, 8, 500);
    assert_eq!(r, Err(PipelineError::InsufficientSignal));
}

#[test]
fn unreachable_match_floor_is_low_confidence() {
    let a = pattern(32);
    let mut b = delayed_copy(&a, 4);
    // Corrupt half the secondary so the match cannot be perfect.
    for i in 0..b.len() {
        if i % 2 == 0 {
            b[i] = 1;
        }
    }
    let r = estimate_delay(&vec![fp(a)], &vec![fp(b)], 100, 8, 10000);
    assert_eq!(r, Err(PipelineError::LowConfidenceMatch));
}

#[test]
fn exact_match_percentage_small_case() {
    // One chunk, envelopes [4, 4] against [2, 2], window 0: only
    // offset 0 compares both buckets. At offset 0 the similarity is
    // min(4,2) + min(4,2) = 4 of a total max(4,2) + max(4,2) = 8: 50%.
    let r = estimate_delay(&vec![fp(vec![4, 4])], &vec![fp(vec![2, 2])], 10, 0, 0).unwrap();
    assert_eq!(r.offset_ms, 0);
    assert_eq!(r.match_centi_pct, 5000);
}

#[test]
fn tie_prefers_offset_closest_to_zero() {
    // A flat envelope scores best at zero shift (largest overlap), and
    // equal scores at +/-k are broken toward zero anyway.
    let flat = vec![5u64; 16];
    let r = estimate_delay(&vec![fp(flat.clone())], &vec![fp(flat)], 100, 4, 0).unwrap();
    assert_eq!(r.offset_ms, 0);
}
