use video_sync_merger::aggregate::{aggregate_delays, RawOffset};

fn raw(name: &str, offset_ms: i64) -> RawOffset {
    RawOffset { name: String::from(name), offset_ms }
}

#[test]
fn known_three_source_aggregation() {
    // Reference "A" at zero, "B" starts 1200 ms after it, "C" 300 ms before.
    let offsets = vec![raw("A", 0), raw("B", 1200), raw("C", -300)];
    let d = aggregate_delays(&offsets);
    assert_eq!(d.global_shift_ms, 300);
    assert_eq!(d.source_delays_ms.len(), 3);
    assert_eq!(d.source_delays_ms[0].name, "A");
    assert_eq!(d.source_delays_ms[0].delay_ms, 300);
    assert_eq!(d.source_delays_ms[1].name, "B");
    assert_eq!(d.source_delays_ms[1].delay_ms, 1500);
    assert_eq!(d.source_delays_ms[2].name, "C");
    assert_eq!(d.source_delays_ms[2].delay_ms, 0);
}

#[test]
fn aggregation_is_order_invariant() {
    let a = vec![raw("A", 0), raw("B", 1200), raw("C", -300)];
    let b = vec![raw("C", -300), raw("A", 0), raw("B", 1200)];
    let da = aggregate_delays(&a);
    let db = aggregate_delays(&b);
    assert_eq!(da.global_shift_ms, db.global_shift_ms);
    let mut pairs_a: Vec<(String, i64)> = da
        .source_delays_ms
        .iter()
        .map(|s| (s.name.clone(), s.delay_ms))
        .collect();
    let mut pairs_b: Vec<(String, i64)> = db
        .source_delays_ms
        .iter()
        .map(|s| (s.name.clone(), s.delay_ms))
        .collect();
    pairs_a.sort();
    pairs_b.sort();
    assert_eq!(pairs_a, pairs_b);
}

#[test]
fn minimum_delay_is_zero() {
    let offsets = vec![raw("ref", 0), raw("sec", 250), raw("ter", 4000)];
    let d = aggregate_delays(&offsets);
    assert!(d.source_delays_ms.iter().all(|s| s.delay_ms >= 0));
    assert!(d.source_delays_ms.iter().any(|s| s.delay_ms == 0));
    assert_eq!(d.global_shift_ms, 0);
}

#[test]
fn all_negative_offsets_shift_up() {
    let offsets = vec![raw("ref", 0), raw("sec", -500), raw("ter", -200)];
    let d = aggregate_delays(&offsets);
    assert_eq!(d.global_shift_ms, 500);
    assert_eq!(d.source_delays_ms[0].delay_ms, 500);
    assert_eq!(d.source_delays_ms[1].delay_ms, 0);
    assert_eq!(d.source_delays_ms[2].delay_ms, 300);
}

#[test]
fn single_reference_only() {
    let offsets = vec![raw("ref", 0)];
    let d = aggregate_delays(&offsets);
    assert_eq!(d.global_shift_ms, 0);
    assert_eq!(d.source_delays_ms.len(), 1);
    assert_eq!(d.source_delays_ms[0].delay_ms, 0);
}
