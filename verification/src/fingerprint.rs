//! Chunk Sampler: plans the comparison windows across a source's
//! duration and turns decoded audio samples into the amplitude
//! envelopes the Delay Estimator compares.
//!
//! Decoding itself is the probe collaborator's work; this module only
//! decides where to sample and what a sampled chunk's fingerprint is.

use vstd::prelude::*;
use vstd::math::min;
use vstd::arithmetic::div_mod::{
    lemma_div_is_ordered, lemma_div_multiples_vanish, lemma_fundamental_div_mod,
};
use crate::estimator::{env_wf, Fingerprint, MAX_BUCKETS, MAX_ENERGY};

verus! {

/// One planned sampling window.
#[derive(Clone, Copy, Debug, PartialEq, Eq, Structural)]
pub struct ChunkWindow {
    pub start_ms: u64,
    pub duration_ms: u64,
}

/// Margin left untouched at each end of the file, to avoid silence and
/// black-frame artifacts: one twentieth of the duration.
pub open spec fn margin_of(duration_ms: int) -> int {
    duration_ms / 20
}

/// The stretch of the file that windows may be placed in.
pub open spec fn usable_of(duration_ms: int) -> int {
    duration_ms - 2 * margin_of(duration_ms)
}

/// How many windows actually fit: the requested count, reduced
/// proportionally when the source is too short for all of them.
pub open spec fn planned_count(duration_ms: int, requested: int, chunk_ms: int) -> int
    recommends
        chunk_ms > 0,
{
    min(requested, usable_of(duration_ms) / chunk_ms)
}

/// Distance between consecutive window starts: the usable stretch
/// split evenly over the planned windows.
pub open spec fn planned_stride(duration_ms: int, n: int) -> int
    recommends
        n > 0,
{
    usable_of(duration_ms) / n
}

/// Spread sampling windows evenly across the usable part of a source.
///
/// Produces `min(chunk_count, usable / chunk_ms)` windows of
/// `chunk_duration_s` seconds each, the first starting at the margin,
/// consecutive starts one stride apart, and every window ending inside
/// the usable stretch without overlapping the next.
pub fn plan_windows(duration_ms: u64, chunk_count: u32, chunk_duration_s: u32) -> (r: Vec<
    ChunkWindow,
>)
    requires
        chunk_duration_s >= 1,
    ensures
        r@.len() == planned_count(
            duration_ms as int,
            chunk_count as int,
            chunk_duration_s as int * 1000,
        ),
        forall|i: int|
            0 <= i < r@.len() ==> (#[trigger] r@[i]).start_ms == margin_of(duration_ms as int) + i
                * planned_stride(duration_ms as int, r@.len() as int),
        forall|i: int|
            0 <= i < r@.len() ==> (#[trigger] r@[i]).duration_ms == chunk_duration_s as int * 1000,
        forall|i: int|
            0 <= i < r@.len() ==> (#[trigger] r@[i]).start_ms + r@[i].duration_ms <= duration_ms
                as int - margin_of(duration_ms as int),
        forall|i: int|
            0 <= i && i + 1 < r@.len() ==> (#[trigger] r@[i]).start_ms + r@[i].duration_ms
                <= r@[i + 1].start_ms,
{
    let chunk_ms: u64 = chunk_duration_s as u64 * 1000;
    let margin: u64 = duration_ms / 20;
    proof {
        lemma_fundamental_div_mod(duration_ms as int, 20);
    }
    let usable: u64 = duration_ms - 2 * margin;
    let fit: u64 = usable / chunk_ms;
    let n: u64 = if (chunk_count as u64) <= fit {
        chunk_count as u64
    } else {
        fit
    };
    let ghost gn = planned_count(
        duration_ms as int,
        chunk_count as int,
        chunk_duration_s as int * 1000,
    );
    assert(n == gn);
    let mut r: Vec<ChunkWindow> = Vec::new();
    if n == 0 {
        return r;
    }
    let stride: u64 = usable / n;
    proof {
        // chunk_ms <= stride: n * chunk_ms <= usable, so chunk_ms = (n * chunk_ms) / n <= usable / n
        lemma_fundamental_div_mod(usable as int, chunk_ms as int);
        assert(n as int * chunk_ms as int <= fit as int * chunk_ms as int) by (nonlinear_arith)
            requires
                0 <= n as int <= fit as int,
                0 < chunk_ms as int,
        ;
        assert(fit as int * chunk_ms as int <= usable as int) by (nonlinear_arith)
            requires
                usable as int == chunk_ms as int * (fit as int) + (usable as int % (
                chunk_ms as int)),
                usable as int % (chunk_ms as int) >= 0,
        ;
        lemma_div_multiples_vanish(chunk_ms as int, n as int);
        lemma_div_is_ordered(n as int * chunk_ms as int, usable as int, n as int);
        assert(chunk_ms as int <= stride as int);
        // n * stride <= usable
        lemma_fundamental_div_mod(usable as int, n as int);
        assert(n as int * stride as int <= usable as int) by (nonlinear_arith)
            requires
                usable as int == n as int * (stride as int) + (usable as int % (n as int)),
                usable as int % (n as int) >= 0,
        ;
    }
    let mut i: u64 = 0;
    let mut start: u64 = margin;
    while i < n
        invariant
            0 < n,
            i <= n,
            chunk_ms >= 1000,
            chunk_ms as int <= stride as int,
            n as int * stride as int <= usable as int,
            usable as int == usable_of(duration_ms as int),
            margin as int == margin_of(duration_ms as int),
            stride as int == planned_stride(duration_ms as int, n as int),
            start as int == margin as int + i as int * stride as int,
            r@.len() == i,
            forall|j: int|
                0 <= j < i ==> (#[trigger] r@[j]).start_ms == margin as int + j * stride as int,
            forall|j: int| 0 <= j < i ==> (#[trigger] r@[j]).duration_ms == chunk_ms as int,
        decreases n - i,
    {
        proof {
            assert(i as int * stride as int + stride as int == (i as int + 1) * stride as int)
                by (nonlinear_arith);
            assert((i as int + 1) * stride as int <= n as int * stride as int) by (nonlinear_arith)
                requires
                    0 <= i as int + 1 <= n as int,
                    0 <= stride as int,
            ;
        }
        r.push(ChunkWindow { start_ms: start, duration_ms: chunk_ms });
        start = start + stride;
        i += 1;
    }
    proof {
        assert forall|j: int|
            0 <= j < r@.len() implies (#[trigger] r@[j]).start_ms + r@[j].duration_ms <= duration_ms
            as int - margin_of(duration_ms as int) by {
            assert(j * stride as int + stride as int == (j + 1) * stride as int)
                by (nonlinear_arith);
            assert((j + 1) * stride as int <= n as int * stride as int) by (nonlinear_arith)
                requires
                    0 <= j + 1 <= n as int,
                    0 <= stride as int,
            ;
        }
        assert forall|j: int|
            0 <= j && j + 1 < r@.len() implies (#[trigger] r@[j]).start_ms + r@[j].duration_ms <= r@[j
            + 1].start_ms by {
            assert(r@[j].start_ms == margin as int + j * stride as int);
            assert(r@[j + 1].start_ms == margin as int + (j + 1) * stride as int);
            assert(r@[j].duration_ms == chunk_ms as int);
            assert(j * stride as int + stride as int == (j + 1) * stride as int)
                by (nonlinear_arith);
        }
    }
    r
}

/// How many comparison windows a source should be sampled with:
/// the configured count under segmented sampling, a single comparison
/// window otherwise.
pub fn effective_chunk_count(settings: &crate::config::AppConfig) -> (n: u32)
    ensures
        n == (if settings.segmented_enabled {
            settings.scan_chunk_count
        } else {
            1u32
        }),
{
    if settings.segmented_enabled {
        settings.scan_chunk_count
    } else {
        1
    }
}

/// Sum of the magnitudes of `len` samples starting at `start`.
pub open spec fn bucket_sum(s: Seq<i32>, start: int, len: int) -> int
    decreases len,
{
    if len <= 0 {
        0
    } else {
        bucket_sum(s, start, len - 1) + vstd::math::abs(s[start + len - 1] as int)
    }
}

proof fn lemma_bucket_sum_bounds(s: Seq<i32>, start: int, len: int)
    requires
        len >= 0,
    ensures
        0 <= bucket_sum(s, start, len) <= len * (MAX_ENERGY as int),
    decreases len,
{
    if len > 0 {
        lemma_bucket_sum_bounds(s, start, len - 1);
    }
}

/// Turn one chunk's decoded samples into its fingerprint: the samples
/// are cut into buckets of `bucket_len` samples and each bucket
/// becomes the mean magnitude of its samples (a downsampled amplitude
/// envelope). A trailing part shorter than a bucket is dropped.
pub fn fingerprint_chunk(samples: &Vec<i32>, bucket_len: usize) -> (r: Fingerprint)
    requires
        1 <= bucket_len <= 0x1000_0000,
        samples@.len() <= MAX_BUCKETS * bucket_len,
    ensures
        r.energies@.len() == samples@.len() as int / bucket_len as int,
        forall|b: int|
            0 <= b < r.energies@.len() ==> (#[trigger] r.energies@[b]) == bucket_sum(
                samples@,
                b * bucket_len as int,
                bucket_len as int,
            ) / bucket_len as int,
        r.wf(),
{
    let ghost bl = bucket_len as int;
    let total: usize = samples.len();
    let nbuckets: usize = total / bucket_len;
    proof {
        lemma_div_is_ordered(samples@.len() as int, MAX_BUCKETS * bl, bl);
        lemma_div_multiples_vanish(MAX_BUCKETS as int, bl);
        assert(bl * (MAX_BUCKETS as int) == (MAX_BUCKETS as int) * bl) by (nonlinear_arith);
        assert(nbuckets <= MAX_BUCKETS);
        lemma_fundamental_div_mod(samples@.len() as int, bl);
        assert(bl * (nbuckets as int) <= samples@.len() as int);
    }
    let mut energies: Vec<u64> = Vec::new();
    let mut b: usize = 0;
    let mut pos: usize = 0;
    while b < nbuckets
        invariant
            b <= nbuckets,
            nbuckets <= MAX_BUCKETS,
            1 <= bucket_len <= 0x1000_0000,
            bl == bucket_len as int,
            total == samples@.len(),
            nbuckets as int == samples@.len() as int / bl,
            bl * (nbuckets as int) <= total as int,
            pos == b * bl,
            energies@.len() == b,
            forall|j: int|
                0 <= j < b ==> (#[trigger] energies@[j]) == bucket_sum(samples@, j * bl, bl) / bl,
            forall|j: int| 0 <= j < b ==> (#[trigger] energies@[j]) <= MAX_ENERGY,
        decreases nbuckets - b,
    {
        proof {
            assert(b as int * bl + bl == (b as int + 1) * bl) by (nonlinear_arith);
            assert((b as int + 1) * bl <= nbuckets as int * bl) by (nonlinear_arith)
                requires
                    0 <= b as int + 1 <= nbuckets as int,
                    0 <= bl,
            ;
            assert(nbuckets as int * bl == bl * (nbuckets as int)) by (nonlinear_arith);
        }
        let mut sum: u64 = 0;
        let mut j: usize = 0;
        while j < bucket_len
            invariant
                j <= bucket_len,
                1 <= bucket_len <= 0x1000_0000,
                bl == bucket_len as int,
                pos == b * bl,
                total == samples@.len(),
                pos + bucket_len <= total,
                sum == bucket_sum(samples@, pos as int, j as int),
                sum <= j as int * (MAX_ENERGY as int),
            decreases bucket_len - j,
        {
            let v = samples[pos + j];
            let mag: u64 = if v < 0 {
                if v == i32::MIN {
                    0x8000_0000u64
                } else {
                    (-v) as u64
                }
            } else {
                v as u64
            };
            sum = sum + mag;
            j += 1;
        }
        proof {
            lemma_bucket_sum_bounds(samples@, pos as int, bl);
            lemma_div_is_ordered(sum as int, bl * (MAX_ENERGY as int), bl);
            lemma_div_multiples_vanish(MAX_ENERGY as int, bl);
            assert(bl * (MAX_ENERGY as int) == (bl as int) * (MAX_ENERGY as int));
        }
        let energy: u64 = sum / (bucket_len as u64);
        energies.push(energy);
        pos = pos + bucket_len;
        b += 1;
    }
    Fingerprint { energies }
}

} // verus!
