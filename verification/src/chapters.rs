//! Chapter Normalizer: two independent, config-gated transforms over a
//! chapter list, applied in this order when both are enabled.
//!
//! Rename relabels every chapter title to the canonical, zero-padded,
//! sequential `Chapter NN` scheme, discarding the original titles.
//! Snap moves each chapter timestamp to the nearest keyframe within an
//! inclusive threshold, preferring the earlier keyframe on a tie, and
//! leaves the timestamp alone when no keyframe is close enough: it
//! never invents a keyframe and never fails.

use vstd::prelude::*;
use vstd::string::{StringExecFns, StrSliceExecFns};

verus! {

/// One chapter mark of the output container.
#[derive(Clone, Debug)]
pub struct Chapter {
    pub title: String,
    pub time_ms: u64,
}

/// The character for one decimal digit.
pub open spec fn dec_digit(d: int) -> char {
    if d == 0 {
        '0'
    } else if d == 1 {
        '1'
    } else if d == 2 {
        '2'
    } else if d == 3 {
        '3'
    } else if d == 4 {
        '4'
    } else if d == 5 {
        '5'
    } else if d == 6 {
        '6'
    } else if d == 7 {
        '7'
    } else if d == 8 {
        '8'
    } else {
        '9'
    }
}

/// The decimal numeral of a non-negative number, most significant
/// digit first.
pub open spec fn dec_digits(n: int) -> Seq<char>
    decreases n,
{
    if n <= 9 {
        seq![dec_digit(n)]
    } else {
        dec_digits(n / 10).push(dec_digit(n % 10))
    }
}

/// The numeral zero-padded to at least two digits, as chapter numbers
/// are labelled.
pub open spec fn padded_number(n: int) -> Seq<char> {
    if n <= 9 {
        seq!['0'] + dec_digits(n)
    } else {
        dec_digits(n)
    }
}

/// The canonical title of chapter number `n` (numbered from one).
pub open spec fn chapter_title_spec(n: int) -> Seq<char> {
    "Chapter "@ + padded_number(n)
}

/// `out` is `input` with every title relabelled canonically and every
/// timestamp kept.
pub open spec fn is_renamed(input: Seq<Chapter>, out: Seq<Chapter>) -> bool {
    &&& out.len() == input.len()
    &&& forall|i: int|
        0 <= i < input.len() ==> (#[trigger] out[i]).title@ == chapter_title_spec(i + 1)
            && out[i].time_ms == input[i].time_ms
}

/// One decimal digit as a string slice.
fn digit_str(d: u64) -> (r: &'static str)
    requires
        d <= 9,
    ensures
        r@ == seq![dec_digit(d as int)],
{
    proof {
        reveal_strlit("0");
        reveal_strlit("1");
        reveal_strlit("2");
        reveal_strlit("3");
        reveal_strlit("4");
        reveal_strlit("5");
        reveal_strlit("6");
        reveal_strlit("7");
        reveal_strlit("8");
        reveal_strlit("9");
    }
    let r = if d == 0 {
        "0"
    } else if d == 1 {
        "1"
    } else if d == 2 {
        "2"
    } else if d == 3 {
        "3"
    } else if d == 4 {
        "4"
    } else if d == 5 {
        "5"
    } else if d == 6 {
        "6"
    } else if d == 7 {
        "7"
    } else if d == 8 {
        "8"
    } else {
        "9"
    };
    proof {
        assert(r@ =~= seq![dec_digit(d as int)]);
    }
    r
}

/// The decimal numeral of `n`.
fn dec_string(n: u64) -> (r: String)
    ensures
        r@ == dec_digits(n as int),
    decreases n,
{
    if n <= 9 {
        let r = String::from_str(digit_str(n));
        proof {
            assert(r@ =~= dec_digits(n as int));
        }
        r
    } else {
        let prefix = dec_string(n / 10);
        let r = prefix.concat(digit_str(n % 10));
        proof {
            assert(r@ =~= dec_digits(n as int));
        }
        r
    }
}

/// The canonical title of chapter number `n`.
pub fn chapter_title(n: u64) -> (r: String)
    ensures
        r@ == chapter_title_spec(n as int),
{
    let mut label = String::from_str("Chapter ");
    if n <= 9 {
        label.append("0");
        proof {
            reveal_strlit("0");
        }
    }
    let digits = dec_string(n);
    let r = label.concat(digits.as_str());
    proof {
        assert(r@ =~= chapter_title_spec(n as int));
    }
    r
}

/// Relabel every chapter to the canonical sequential scheme, keeping
/// every timestamp.
pub fn rename_chapters(chapters: &Vec<Chapter>) -> (r: Vec<Chapter>)
    requires
        chapters@.len() <= 0xFFFF_FFFF,
    ensures
        is_renamed(chapters@, r@),
{
    let mut r: Vec<Chapter> = Vec::new();
    let mut i: usize = 0;
    while i < chapters.len()
        invariant
            i <= chapters@.len(),
            chapters@.len() <= 0xFFFF_FFFF,
            r@.len() == i,
            forall|j: int|
                0 <= j < i ==> (#[trigger] r@[j]).title@ == chapter_title_spec(j + 1)
                    && r@[j].time_ms == chapters@[j].time_ms,
        decreases chapters@.len() - i,
    {
        let title = chapter_title((i as u64) + 1);
        r.push(Chapter { title, time_ms: chapters[i].time_ms });
        i += 1;
    }
    r
}

/// Distance in milliseconds between two timestamps.
pub open spec fn time_dist(a: int, b: int) -> int {
    if a >= b {
        a - b
    } else {
        b - a
    }
}

/// Some keyframe lies within the (inclusive) snap threshold of `t`.
pub open spec fn has_close_keyframe(t: int, keyframes: Seq<u64>, threshold: int) -> bool {
    exists|i: int| 0 <= i < keyframes.len() && time_dist(keyframes[i] as int, t) <= threshold
}

/// `r` is what snapping `t` yields: the nearest keyframe within the
/// threshold (the earlier one on a distance tie), or `t` itself when
/// no keyframe is close enough.
pub open spec fn snapped_spec(t: int, keyframes: Seq<u64>, threshold: int, r: int) -> bool {
    if has_close_keyframe(t, keyframes, threshold) {
        &&& exists|i: int| 0 <= i < keyframes.len() && r == keyframes[i] as int
        &&& time_dist(r, t) <= threshold
        &&& forall|j: int|
            0 <= j < keyframes.len() ==> time_dist(r, t) <= time_dist(
                #[trigger] keyframes[j] as int,
                t,
            )
        &&& forall|j: int|
            0 <= j < keyframes.len() && time_dist(#[trigger] keyframes[j] as int, t) == time_dist(
                r,
                t,
            ) ==> r <= keyframes[j] as int
    } else {
        r == t
    }
}

/// Snap one chapter timestamp to the nearest keyframe within the
/// threshold; a timestamp exactly at the threshold snaps, one beyond
/// it stays unchanged.
pub fn snap_time(t: u64, keyframes: &Vec<u64>, threshold_ms: u64) -> (r: u64)
    ensures
        snapped_spec(t as int, keyframes@, threshold_ms as int, r as int),
{
    let mut best: u64 = t;
    let mut best_dist: u64 = u64::MAX;
    let mut found: bool = false;
    let mut i: usize = 0;
    while i < keyframes.len()
        invariant
            i <= keyframes@.len(),
            found <==> exists|j: int|
                0 <= j < i && time_dist(keyframes@[j] as int, t as int) <= threshold_ms as int,
            found ==> {
                &&& exists|j: int| 0 <= j < i && best as int == keyframes@[j] as int
                &&& best_dist == time_dist(best as int, t as int)
                &&& best_dist <= threshold_ms
                &&& forall|j: int|
                    0 <= j < i && time_dist(#[trigger] keyframes@[j] as int, t as int)
                        <= threshold_ms as int ==> best_dist as int <= time_dist(
                        keyframes@[j] as int,
                        t as int,
                    )
                &&& forall|j: int|
                    0 <= j < i && time_dist(#[trigger] keyframes@[j] as int, t as int)
                        == best_dist as int ==> best as int <= keyframes@[j] as int
            },
            !found ==> best == t,
        decreases keyframes@.len() - i,
    {
        let kf = keyframes[i];
        let d: u64 = if kf >= t {
            kf - t
        } else {
            t - kf
        };
        if d <= threshold_ms {
            if !found || d < best_dist || (d == best_dist && kf < best) {
                best = kf;
                best_dist = d;
            }
            found = true;
        }
        i += 1;
    }
    proof {
        if found {
            assert forall|j: int|
                0 <= j < keyframes@.len() implies time_dist(best as int, t as int) <= time_dist(
                #[trigger] keyframes@[j] as int,
                t as int,
            ) by {
                if time_dist(keyframes@[j] as int, t as int) > threshold_ms as int {
                    assert(time_dist(best as int, t as int) <= threshold_ms as int);
                }
            }
        }
    }
    best
}

/// The timestamps `out` carries are those of `input` snapped to
/// `keyframes` within `threshold`, titles untouched.
pub open spec fn is_snapped(
    input: Seq<Chapter>,
    out: Seq<Chapter>,
    keyframes: Seq<u64>,
    threshold: int,
) -> bool {
    &&& out.len() == input.len()
    &&& forall|i: int|
        0 <= i < input.len() ==> (#[trigger] out[i]).title@ == input[i].title@ && snapped_spec(
            input[i].time_ms as int,
            keyframes,
            threshold,
            out[i].time_ms as int,
        )
}

/// Snap every chapter's timestamp, keeping every title.
pub fn snap_chapters(chapters: &Vec<Chapter>, keyframes: &Vec<u64>, threshold_ms: u64) -> (r: Vec<
    Chapter,
>)
    ensures
        is_snapped(chapters@, r@, keyframes@, threshold_ms as int),
{
    let mut r: Vec<Chapter> = Vec::new();
    let mut i: usize = 0;
    while i < chapters.len()
        invariant
            i <= chapters@.len(),
            r@.len() == i,
            forall|j: int|
                0 <= j < i ==> (#[trigger] r@[j]).title@ == chapters@[j].title@ && snapped_spec(
                    chapters@[j].time_ms as int,
                    keyframes@,
                    threshold_ms as int,
                    r@[j].time_ms as int,
                ),
        decreases chapters@.len() - i,
    {
        let time_ms = snap_time(chapters[i].time_ms, keyframes, threshold_ms);
        r.push(Chapter { title: chapters[i].title.clone(), time_ms });
        i += 1;
    }
    r
}

/// Apply the two config-gated transforms in order: rename first when
/// `rename` is set, then snap when `snap` is set.
pub fn normalize_chapters(
    chapters: &Vec<Chapter>,
    keyframes: &Vec<u64>,
    rename: bool,
    snap: bool,
    threshold_ms: u64,
) -> (r: Vec<Chapter>)
    requires
        chapters@.len() <= 0xFFFF_FFFF,
    ensures
        r@.len() == chapters@.len(),
        forall|i: int|
            0 <= i < r@.len() ==> (#[trigger] r@[i]).title@ == (if rename {
                chapter_title_spec(i + 1)
            } else {
                chapters@[i].title@
            }),
        forall|i: int|
            0 <= i < r@.len() ==> (if snap {
                snapped_spec(
                    chapters@[i].time_ms as int,
                    keyframes@,
                    threshold_ms as int,
                    (#[trigger] r@[i]).time_ms as int,
                )
            } else {
                (#[trigger] r@[i]).time_ms == chapters@[i].time_ms
            }),
{
    let renamed: Vec<Chapter> = if rename {
        rename_chapters(chapters)
    } else {
        clone_chapters(chapters)
    };
    if snap {
        snap_chapters(&renamed, keyframes, threshold_ms)
    } else {
        renamed
    }
}

/// A title-and-timestamp copy of a chapter list.
fn clone_chapters(chapters: &Vec<Chapter>) -> (r: Vec<Chapter>)
    ensures
        r@.len() == chapters@.len(),
        forall|j: int|
            0 <= j < chapters@.len() ==> (#[trigger] r@[j]).title@ == chapters@[j].title@
                && r@[j].time_ms == chapters@[j].time_ms,
{
    let mut r: Vec<Chapter> = Vec::new();
    let mut i: usize = 0;
    while i < chapters.len()
        invariant
            i <= chapters@.len(),
            r@.len() == i,
            forall|j: int|
                0 <= j < i ==> (#[trigger] r@[j]).title@ == chapters@[j].title@
                    && r@[j].time_ms == chapters@[j].time_ms,
        decreases chapters@.len() - i,
    {
        r.push(Chapter { title: chapters[i].title.clone(), time_ms: chapters[i].time_ms });
        i += 1;
    }
    r
}

/// Renaming is idempotent: applying the canonical relabelling to an
/// already relabelled list changes nothing, so running the Chapter
/// Normalizer twice with renaming enabled yields the titles and
/// timestamps a single run yields.
pub proof fn lemma_rename_idempotent(c0: Seq<Chapter>, c1: Seq<Chapter>, c2: Seq<Chapter>)
    requires
        is_renamed(c0, c1),
        is_renamed(c1, c2),
    ensures
        c2.len() == c1.len(),
        forall|i: int|
            0 <= i < c1.len() ==> (#[trigger] c2[i]).title@ == c1[i].title@ && c2[i].time_ms
                == c1[i].time_ms,
{
}

} // verus!
