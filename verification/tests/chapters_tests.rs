use video_sync_merger::chapters::{
    chapter_title, normalize_chapters, rename_chapters, snap_chapters, snap_time, Chapter,
};

fn ch(title: &str, time_ms: u64) -> Chapter {
    Chapter { title: String::from(title), time_ms }
}

#[test]
fn titles_are_zero_padded_and_sequential() {
    let input = vec![ch("Intro", 0), ch("Act One", 61000), ch("Finale", 3600000)];
    let out = rename_chapters(&input);
    assert_eq!(out.len(), 3);
    assert_eq!(out[0].title, "Chapter 01");
    assert_eq!(out[1].title, "Chapter 02");
    assert_eq!(out[2].title, "Chapter 03");
    assert_eq!(out[0].time_ms, 0);
    assert_eq!(out[1].time_ms, 61000);
    assert_eq!(out[2].time_ms, 3600000);
}

#[test]
fn titles_past_nine_and_past_ninety_nine() {
    assert_eq!(chapter_title(9), "Chapter 09");
    assert_eq!(chapter_title(10), "Chapter 10");
    assert_eq!(chapter_title(99), "Chapter 99");
    assert_eq!(chapter_title(100), "Chapter 100");
}

#[test]
fn renaming_twice_equals_renaming_once() {
    let input = vec![ch("a", 10), ch("b", 20), ch("c", 30)];
    let once = rename_chapters(&input);
    let twice = rename_chapters(&once);
    assert_eq!(once.len(), twice.len());
    for (x, y) in once.iter().zip(twice.iter()) {
        assert_eq!(x.title, y.title);
        assert_eq!(x.time_ms, y.time_ms);
    }
}

#[test]
fn snap_within_threshold_takes_keyframe_exactly() {
    let keyframes = vec![1000, 5000, 9000];
    assert_eq!(snap_time(5200, &keyframes, 250), 5000);
    assert_eq!(snap_time(900, &keyframes, 250), 1000);
}

#[test]
fn snap_boundary_is_inclusive_and_one_past_is_not() {
    let keyframes = vec![1000];
    assert_eq!(snap_time(1250, &keyframes, 250), 1000);
    assert_eq!(snap_time(1251, &keyframes, 250), 1251);
    assert_eq!(snap_time(750, &keyframes, 250), 1000);
    assert_eq!(snap_time(749, &keyframes, 250), 749);
}

#[test]
fn snap_prefers_nearest_then_earlier() {
    let keyframes = vec![1000, 1100];
    // 1040 is nearer to 1000.
    assert_eq!(snap_time(1040, &keyframes, 250), 1000);
    // 1090 is nearer to 1100.
    assert_eq!(snap_time(1090, &keyframes, 250), 1100);
    // 1050 ties; the earlier keyframe wins.
    assert_eq!(snap_time(1050, &keyframes, 250), 1000);
}

#[test]
fn snap_without_keyframes_changes_nothing() {
    let chapters = vec![ch("a", 123), ch("b", 456)];
    let out = snap_chapters(&chapters, &vec![], 250);
    assert_eq!(out[0].time_ms, 123);
    assert_eq!(out[1].time_ms, 456);
}

#[test]
fn normalize_applies_rename_then_snap() {
    let chapters = vec![ch("old", 1240), ch("names", 5210)];
    let keyframes = vec![1000, 5000];
    let out = normalize_chapters(&chapters, &keyframes, true, true, 250);
    assert_eq!(out[0].title, "Chapter 01");
    assert_eq!(out[0].time_ms, 1000);
    assert_eq!(out[1].title, "Chapter 02");
    assert_eq!(out[1].time_ms, 5000);
}

#[test]
fn normalize_with_both_flags_off_is_identity() {
    let chapters = vec![ch("keep", 1240)];
    let out = normalize_chapters(&chapters, &vec![1000], false, false, 250);
    assert_eq!(out[0].title, "keep");
    assert_eq!(out[0].time_ms, 1240);
}
