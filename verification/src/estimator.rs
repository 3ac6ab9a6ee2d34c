//! Delay Estimator: finds the bucket offset that best aligns two
//! sampled audio fingerprints and grades the match.
//!
//! A fingerprint is a downsampled amplitude envelope: one energy value
//! per fixed-width time bucket. The similarity of two envelopes at a
//! candidate offset is the sum, over the overlapping buckets, of the
//! smaller of the two energies; the search picks the offset of maximal
//! aggregate similarity across all sampled chunks, preferring the
//! offset closest to zero among equals. The proofs at the end show the
//! search is symmetric: swapping the two sources flips the sign of the
//! found offset.

use vstd::prelude::*;
use vstd::math::{abs, max, min};
use crate::errors::PipelineError;

verus! {

/// Upper bound on one envelope bucket's energy (mean of 31-bit sample
/// magnitudes), so that sums of energies stay well inside `u64`.
pub const MAX_ENERGY: u64 = 0x8000_0000;

/// Upper bound on buckets per envelope and on chunks per source.
pub const MAX_BUCKETS: usize = 4096;

/// Upper bound on a comparison bucket's width, milliseconds.
pub const MAX_BUCKET_MS: u64 = 1_000_000;

/// Downsampled amplitude envelope of one sampled audio chunk.
#[derive(Clone, Debug)]
pub struct Fingerprint {
    pub energies: Vec<u64>,
}

/// An envelope the estimator accepts: bounded length, bounded values.
pub open spec fn env_wf(e: Seq<u64>) -> bool {
    &&& e.len() <= MAX_BUCKETS
    &&& forall|i: int| 0 <= i < e.len() ==> (#[trigger] e[i]) <= MAX_ENERGY
}

impl Fingerprint {
    pub open spec fn wf(self) -> bool {
        env_wf(self.energies@)
    }
}

/// Every chunk fingerprint of a source is well formed, and there are
/// not more chunks than `MAX_BUCKETS`.
pub open spec fn chunks_wf(c: Seq<Fingerprint>) -> bool {
    &&& c.len() <= MAX_BUCKETS
    &&& forall|i: int| 0 <= i < c.len() ==> (#[trigger] c[i]).wf()
}

/// Contribution of position `i` to the similarity of `a` against `b`
/// shifted by `k` buckets: the smaller energy where both envelopes
/// have a bucket, zero outside the overlap.
pub open spec fn overlap_min(a: Seq<u64>, b: Seq<u64>, k: int, i: int) -> int {
    if 0 <= i < b.len() && 0 <= i + k < a.len() {
        min(a[i + k] as int, b[i] as int)
    } else {
        0
    }
}

/// Contribution of position `i` to the normalizing total: the larger
/// energy on the overlap, zero outside it.
pub open spec fn overlap_max(a: Seq<u64>, b: Seq<u64>, k: int, i: int) -> int {
    if 0 <= i < b.len() && 0 <= i + k < a.len() {
        max(a[i + k] as int, b[i] as int)
    } else {
        0
    }
}

/// Sum of `overlap_min` terms for positions in `[lo, hi)`.
pub open spec fn sum_min_range(a: Seq<u64>, b: Seq<u64>, k: int, lo: int, hi: int) -> int
    decreases hi - lo,
{
    if hi <= lo {
        0
    } else {
        overlap_min(a, b, k, lo) + sum_min_range(a, b, k, lo + 1, hi)
    }
}

/// Sum of `overlap_max` terms for positions in `[lo, hi)`.
pub open spec fn sum_max_range(a: Seq<u64>, b: Seq<u64>, k: int, lo: int, hi: int) -> int
    decreases hi - lo,
{
    if hi <= lo {
        0
    } else {
        overlap_max(a, b, k, lo) + sum_max_range(a, b, k, lo + 1, hi)
    }
}

/// Similarity of envelope `a` against envelope `b` at bucket offset `k`.
pub open spec fn score_at(a: Seq<u64>, b: Seq<u64>, k: int) -> int {
    sum_min_range(a, b, k, 0, b.len() as int)
}

/// Normalizing total for the match percentage at offset `k`.
pub open spec fn denom_at(a: Seq<u64>, b: Seq<u64>, k: int) -> int {
    sum_max_range(a, b, k, 0, b.len() as int)
}

/// Splitting off the last term of a range sum.
proof fn lemma_sum_min_last(a: Seq<u64>, b: Seq<u64>, k: int, lo: int, hi: int)
    requires
        lo < hi,
    ensures
        sum_min_range(a, b, k, lo, hi) == sum_min_range(a, b, k, lo, hi - 1)
            + overlap_min(a, b, k, hi - 1),
    decreases hi - lo,
{
    if lo + 1 < hi {
        lemma_sum_min_last(a, b, k, lo + 1, hi);
        assert(sum_min_range(a, b, k, lo, hi) == overlap_min(a, b, k, lo) + sum_min_range(
            a,
            b,
            k,
            lo + 1,
            hi,
        ));
        assert(sum_min_range(a, b, k, lo, hi - 1) == overlap_min(a, b, k, lo) + sum_min_range(
            a,
            b,
            k,
            lo + 1,
            hi - 1,
        ));
    } else {
        assert(sum_min_range(a, b, k, lo, hi) == overlap_min(a, b, k, lo) + sum_min_range(
            a,
            b,
            k,
            lo + 1,
            hi,
        ));
        assert(sum_min_range(a, b, k, lo + 1, hi) == 0);
        assert(sum_min_range(a, b, k, lo, hi - 1) == 0);
    }
}

/// Splitting off the last term of a normalizing range sum.
proof fn lemma_sum_max_last(a: Seq<u64>, b: Seq<u64>, k: int, lo: int, hi: int)
    requires
        lo < hi,
    ensures
        sum_max_range(a, b, k, lo, hi) == sum_max_range(a, b, k, lo, hi - 1)
            + overlap_max(a, b, k, hi - 1),
    decreases hi - lo,
{
    if lo + 1 < hi {
        lemma_sum_max_last(a, b, k, lo + 1, hi);
        assert(sum_max_range(a, b, k, lo, hi) == overlap_max(a, b, k, lo) + sum_max_range(
            a,
            b,
            k,
            lo + 1,
            hi,
        ));
        assert(sum_max_range(a, b, k, lo, hi - 1) == overlap_max(a, b, k, lo) + sum_max_range(
            a,
            b,
            k,
            lo + 1,
            hi - 1,
        ));
    } else {
        assert(sum_max_range(a, b, k, lo, hi) == overlap_max(a, b, k, lo) + sum_max_range(
            a,
            b,
            k,
            lo + 1,
            hi,
        ));
        assert(sum_max_range(a, b, k, lo + 1, hi) == 0);
        assert(sum_max_range(a, b, k, lo, hi - 1) == 0);
    }
}

/// Termwise, the similarity never exceeds the normalizing total.
proof fn lemma_sum_min_le_sum_max(a: Seq<u64>, b: Seq<u64>, k: int, lo: int, hi: int)
    ensures
        sum_min_range(a, b, k, lo, hi) <= sum_max_range(a, b, k, lo, hi),
    decreases hi - lo,
{
    if lo < hi {
        lemma_sum_min_le_sum_max(a, b, k, lo + 1, hi);
    }
}

/// Similarity of one source's chunk list against another's at offset
/// `k`: the sum of the per-chunk similarities over the chunks both
/// lists have.
pub open spec fn chunks_score_upto(r: Seq<Fingerprint>, s: Seq<Fingerprint>, k: int, c: int) -> int
    decreases c,
{
    if c <= 0 {
        0
    } else {
        chunks_score_upto(r, s, k, c - 1) + score_at(r[c - 1].energies@, s[c - 1].energies@, k)
    }
}

/// Normalizing total over the chunks both lists have.
pub open spec fn chunks_denom_upto(r: Seq<Fingerprint>, s: Seq<Fingerprint>, k: int, c: int) -> int
    decreases c,
{
    if c <= 0 {
        0
    } else {
        chunks_denom_upto(r, s, k, c - 1) + denom_at(r[c - 1].energies@, s[c - 1].energies@, k)
    }
}

/// Number of chunk pairs that take part in a comparison.
pub open spec fn chunks_len(r: Seq<Fingerprint>, s: Seq<Fingerprint>) -> int {
    min(r.len() as int, s.len() as int)
}

/// Aggregate similarity across all sampled chunk pairs at offset `k`.
pub open spec fn chunks_score(r: Seq<Fingerprint>, s: Seq<Fingerprint>, k: int) -> int {
    chunks_score_upto(r, s, k, chunks_len(r, s))
}

/// Aggregate normalizing total at offset `k`.
pub open spec fn chunks_denom(r: Seq<Fingerprint>, s: Seq<Fingerprint>, k: int) -> int {
    chunks_denom_upto(r, s, k, chunks_len(r, s))
}

/// Is candidate offset `kn` strictly preferable to `kb`? Higher
/// aggregate similarity wins; among equals the offset closer to zero
/// wins (minimal assumed drift); otherwise the incumbent stays.
pub open spec fn strictly_better(
    r: Seq<Fingerprint>,
    s: Seq<Fingerprint>,
    kn: int,
    kb: int,
) -> bool {
    ||| chunks_score(r, s, kn) > chunks_score(r, s, kb)
    ||| (chunks_score(r, s, kn) == chunks_score(r, s, kb) && abs(kn) < abs(kb))
}

/// Best offset among the candidates `[-m, k]`, scanning upward and
/// replacing the incumbent only on strict improvement.
pub open spec fn best_offset_upto(r: Seq<Fingerprint>, s: Seq<Fingerprint>, m: int, k: int) -> int
    decreases k + m,
{
    if k <= -m {
        -m
    } else {
        let prev = best_offset_upto(r, s, m, k - 1);
        if strictly_better(r, s, k, prev) {
            k
        } else {
            prev
        }
    }
}

/// The offset the search returns: the best candidate in `[-m, m]`.
pub open spec fn best_offset_spec(r: Seq<Fingerprint>, s: Seq<Fingerprint>, m: int) -> int {
    best_offset_upto(r, s, m, m)
}

/// The chosen offset lies in the window, no candidate scores higher,
/// and among candidates of equal score none is closer to zero.
pub proof fn lemma_best_offset_props(r: Seq<Fingerprint>, s: Seq<Fingerprint>, m: int, k: int)
    requires
        m >= 0,
        -m <= k <= m,
    ensures
        -m <= best_offset_upto(r, s, m, k) <= k,
        forall|j: int|
            -m <= j <= k ==> !strictly_better(r, s, j, best_offset_upto(r, s, m, k)),
    decreases k + m,
{
    if k > -m {
        lemma_best_offset_props(r, s, m, k - 1);
        let prev = best_offset_upto(r, s, m, k - 1);
        let best = best_offset_upto(r, s, m, k);
        assert forall|j: int| -m <= j <= k implies !strictly_better(r, s, j, best) by {
            if j < k {
                assert(!strictly_better(r, s, j, prev));
            }
        }
    }
}

/// Total energy held in one envelope's buckets.
pub open spec fn env_energy_upto(e: Seq<u64>, i: int) -> int
    decreases i,
{
    if i <= 0 {
        0
    } else {
        env_energy_upto(e, i - 1) + e[i - 1]
    }
}

/// Total energy across a source's sampled chunks: zero exactly when
/// every sampled chunk is silence.
pub open spec fn chunks_energy_upto(c: Seq<Fingerprint>, i: int) -> int
    decreases i,
{
    if i <= 0 {
        0
    } else {
        chunks_energy_upto(c, i - 1) + env_energy_upto(c[i - 1].energies@, c[i - 1].energies@.len() as int)
    }
}

/// Total energy of a chunk list.
pub open spec fn chunks_energy(c: Seq<Fingerprint>) -> int {
    chunks_energy_upto(c, c.len() as int)
}

proof fn lemma_env_energy_bounds(e: Seq<u64>, i: int)
    requires
        0 <= i <= e.len(),
        env_wf(e),
    ensures
        0 <= env_energy_upto(e, i) <= i * (MAX_ENERGY as int),
    decreases i,
{
    if i > 0 {
        lemma_env_energy_bounds(e, i - 1);
    }
}

proof fn lemma_chunks_energy_bounds(c: Seq<Fingerprint>, i: int)
    requires
        0 <= i <= c.len(),
        chunks_wf(c),
    ensures
        0 <= chunks_energy_upto(c, i) <= i * ((MAX_BUCKETS as int) * (MAX_ENERGY as int)),
    decreases i,
{
    if i > 0 {
        lemma_chunks_energy_bounds(c, i - 1);
        lemma_env_energy_bounds(c[i - 1].energies@, c[i - 1].energies@.len() as int);
        assert(c[i - 1].energies@.len() * (MAX_ENERGY as int) <= (MAX_BUCKETS as int) * (
        MAX_ENERGY as int)) by (nonlinear_arith)
            requires
                0 <= c[i - 1].energies@.len() <= (MAX_BUCKETS as int),
        ;
    }
}

/// Sum the energy of every bucket of every sampled chunk.
pub fn total_energy(c: &Vec<Fingerprint>) -> (t: u64)
    requires
        chunks_wf(c@),
    ensures
        t == chunks_energy(c@),
{
    let mut t: u64 = 0;
    let mut i: usize = 0;
    while i < c.len()
        invariant
            i <= c@.len(),
            chunks_wf(c@),
            t == chunks_energy_upto(c@, i as int),
            t <= (i as int) * ((MAX_BUCKETS as int) * (MAX_ENERGY as int)),
        decreases c@.len() - i,
    {
        let env = &c[i].energies;
        let ghost e = env@;
        let mut s: u64 = 0;
        let mut j: usize = 0;
        while j < env.len()
            invariant
                j <= e.len(),
                env@ == e,
                env_wf(e),
                s == env_energy_upto(e, j as int),
                s <= (j as int) * (MAX_ENERGY as int),
            decreases e.len() - j,
        {
            s = s + env[j];
            j += 1;
        }
        proof {
            lemma_chunks_energy_bounds(c@, i as int);
            lemma_env_energy_bounds(e, e.len() as int);
            assert(e.len() * (MAX_ENERGY as int) <= (MAX_BUCKETS as int) * (MAX_ENERGY as int))
                by (nonlinear_arith)
                requires
                    0 <= e.len() <= (MAX_BUCKETS as int),
            ;
            assert((i as int + 1) * ((MAX_BUCKETS as int) * (MAX_ENERGY as int)) == (i as int) * (
            (MAX_BUCKETS as int) * (MAX_ENERGY as int)) + (MAX_BUCKETS as int) * (
            MAX_ENERGY as int)) by (nonlinear_arith);
            assert((i as int) * ((MAX_BUCKETS as int) * (MAX_ENERGY as int)) + (
            MAX_BUCKETS as int) * (MAX_ENERGY as int) <= 0x1000 * (0x1000 * 0x8000_0000)) by (nonlinear_arith)
                requires
                    0 <= i as int <= 0x1000 - 1,
            ;
        }
        t = t + s;
        i += 1;
    }
    t
}

/// Similarity of two envelopes at bucket offset `k`, by one pass over
/// the overlap.
fn score_envelopes(a: &Vec<u64>, b: &Vec<u64>, k: i64) -> (s: u64)
    requires
        env_wf(a@),
        env_wf(b@),
        -(MAX_BUCKETS as int) <= k <= MAX_BUCKETS as int,
    ensures
        s == score_at(a@, b@, k as int),
        s <= b@.len() * (MAX_ENERGY as int),
{
    let mut s: u64 = 0;
    let mut i: usize = 0;
    while i < b.len()
        invariant
            i <= b@.len(),
            env_wf(a@),
            env_wf(b@),
            -(MAX_BUCKETS as int) <= k <= MAX_BUCKETS as int,
            s == sum_min_range(a@, b@, k as int, 0, i as int),
            s <= (i as int) * (MAX_ENERGY as int),
        decreases b@.len() - i,
    {
        proof {
            lemma_sum_min_last(a@, b@, k as int, 0, i as int + 1);
        }
        let pos = i as i64 + k;
        if 0 <= pos && pos < a.len() as i64 {
            let av = a[pos as usize];
            let bv = b[i];
            let m = if av <= bv {
                av
            } else {
                bv
            };
            s = s + m;
        }
        i += 1;
    }
    s
}

/// Normalizing total of two envelopes at bucket offset `k`.
fn denom_envelopes(a: &Vec<u64>, b: &Vec<u64>, k: i64) -> (s: u64)
    requires
        env_wf(a@),
        env_wf(b@),
        -(MAX_BUCKETS as int) <= k <= MAX_BUCKETS as int,
    ensures
        s == denom_at(a@, b@, k as int),
        s <= b@.len() * (MAX_ENERGY as int),
{
    let mut s: u64 = 0;
    let mut i: usize = 0;
    while i < b.len()
        invariant
            i <= b@.len(),
            env_wf(a@),
            env_wf(b@),
            -(MAX_BUCKETS as int) <= k <= MAX_BUCKETS as int,
            s == sum_max_range(a@, b@, k as int, 0, i as int),
            s <= (i as int) * (MAX_ENERGY as int),
        decreases b@.len() - i,
    {
        proof {
            lemma_sum_max_last(a@, b@, k as int, 0, i as int + 1);
        }
        let pos = i as i64 + k;
        if 0 <= pos && pos < a.len() as i64 {
            let av = a[pos as usize];
            let bv = b[i];
            let m = if av <= bv {
                bv
            } else {
                av
            };
            s = s + m;
        }
        i += 1;
    }
    s
}

/// Aggregate similarity of two chunk lists at bucket offset `k`.
fn score_chunks(r: &Vec<Fingerprint>, s: &Vec<Fingerprint>, k: i64) -> (t: u64)
    requires
        chunks_wf(r@),
        chunks_wf(s@),
        -(MAX_BUCKETS as int) <= k <= MAX_BUCKETS as int,
    ensures
        t == chunks_score(r@, s@, k as int),
        t <= chunks_len(r@, s@) * ((MAX_BUCKETS as int) * (MAX_ENERGY as int)),
{
    let n = if r.len() <= s.len() {
        r.len()
    } else {
        s.len()
    };
    let mut t: u64 = 0;
    let mut c: usize = 0;
    while c < n
        invariant
            c <= n,
            n == chunks_len(r@, s@),
            chunks_wf(r@),
            chunks_wf(s@),
            -(MAX_BUCKETS as int) <= k <= MAX_BUCKETS as int,
            t == chunks_score_upto(r@, s@, k as int, c as int),
            t <= (c as int) * ((MAX_BUCKETS as int) * (MAX_ENERGY as int)),
        decreases n - c,
    {
        let sc = score_envelopes(&r[c].energies, &s[c].energies, k);
        proof {
            assert(s@[c as int].energies@.len() * (MAX_ENERGY as int) <= (MAX_BUCKETS as int) * (
            MAX_ENERGY as int)) by (nonlinear_arith)
                requires
                    0 <= s@[c as int].energies@.len() <= (MAX_BUCKETS as int),
            ;
            assert((c as int + 1) * ((MAX_BUCKETS as int) * (MAX_ENERGY as int)) == (c as int) * (
            (MAX_BUCKETS as int) * (MAX_ENERGY as int)) + (MAX_BUCKETS as int) * (
            MAX_ENERGY as int)) by (nonlinear_arith);
            assert((c as int) * ((MAX_BUCKETS as int) * (MAX_ENERGY as int)) + (
            MAX_BUCKETS as int) * (MAX_ENERGY as int) <= 0x1000 * (0x1000 * 0x8000_0000)) by (nonlinear_arith)
                requires
                    0 <= c as int <= 0x1000 - 1,
            ;
        }
        t = t + sc;
        c += 1;
    }
    t
}

/// Aggregate normalizing total of two chunk lists at bucket offset `k`.
fn denom_chunks(r: &Vec<Fingerprint>, s: &Vec<Fingerprint>, k: i64) -> (t: u64)
    requires
        chunks_wf(r@),
        chunks_wf(s@),
        -(MAX_BUCKETS as int) <= k <= MAX_BUCKETS as int,
    ensures
        t == chunks_denom(r@, s@, k as int),
        t <= chunks_len(r@, s@) * ((MAX_BUCKETS as int) * (MAX_ENERGY as int)),
{
    let n = if r.len() <= s.len() {
        r.len()
    } else {
        s.len()
    };
    let mut t: u64 = 0;
    let mut c: usize = 0;
    while c < n
        invariant
            c <= n,
            n == chunks_len(r@, s@),
            chunks_wf(r@),
            chunks_wf(s@),
            -(MAX_BUCKETS as int) <= k <= MAX_BUCKETS as int,
            t == chunks_denom_upto(r@, s@, k as int, c as int),
            t <= (c as int) * ((MAX_BUCKETS as int) * (MAX_ENERGY as int)),
        decreases n - c,
    {
        let sc = denom_envelopes(&r[c].energies, &s[c].energies, k);
        proof {
            assert(s@[c as int].energies@.len() * (MAX_ENERGY as int) <= (MAX_BUCKETS as int) * (
            MAX_ENERGY as int)) by (nonlinear_arith)
                requires
                    0 <= s@[c as int].energies@.len() <= (MAX_BUCKETS as int),
            ;
            assert((c as int + 1) * ((MAX_BUCKETS as int) * (MAX_ENERGY as int)) == (c as int) * (
            (MAX_BUCKETS as int) * (MAX_ENERGY as int)) + (MAX_BUCKETS as int) * (
            MAX_ENERGY as int)) by (nonlinear_arith);
            assert((c as int) * ((MAX_BUCKETS as int) * (MAX_ENERGY as int)) + (
            MAX_BUCKETS as int) * (MAX_ENERGY as int) <= 0x1000 * (0x1000 * 0x8000_0000)) by (nonlinear_arith)
                requires
                    0 <= c as int <= 0x1000 - 1,
            ;
        }
        t = t + sc;
        c += 1;
    }
    t
}

/// Scan every candidate offset in `[-m, m]` and return the best one.
fn search_best_offset(r: &Vec<Fingerprint>, s: &Vec<Fingerprint>, m: usize) -> (best: i64)
    requires
        chunks_wf(r@),
        chunks_wf(s@),
        m <= MAX_BUCKETS,
    ensures
        best == best_offset_spec(r@, s@, m as int),
        -(m as int) <= best <= m as int,
{
    let mi = m as i64;
    let mut best: i64 = -mi;
    let mut best_score: u64 = score_chunks(r, s, -mi);
    let mut k: i64 = -mi + 1;
    while k <= mi
        invariant
            chunks_wf(r@),
            chunks_wf(s@),
            m <= MAX_BUCKETS,
            mi == m as int,
            -mi + 1 <= k <= mi + 1,
            -mi <= best < k,
            best == best_offset_upto(r@, s@, m as int, k - 1),
            best_score == chunks_score(r@, s@, best as int),
        decreases mi + 1 - k,
    {
        let sc = score_chunks(r, s, k);
        let abs_k = if k < 0 {
            -k
        } else {
            k
        };
        let abs_best = if best < 0 {
            -best
        } else {
            best
        };
        if sc > best_score || (sc == best_score && abs_k < abs_best) {
            best = k;
            best_score = sc;
        }
        k += 1;
    }
    best
}

/// A successful estimate: the offset, in milliseconds, that best
/// aligns the secondary source with the reference, and the match
/// quality in hundredths of a percent.
#[derive(Clone, Copy, Debug, PartialEq, Eq, Structural)]
pub struct DelayEstimate {
    pub offset_ms: i64,
    pub match_centi_pct: u32,
}

/// Match quality at offset `k`, in hundredths of a percent: the share
/// of the normalizing total that the similarity reaches.
pub open spec fn match_pct_spec(r: Seq<Fingerprint>, s: Seq<Fingerprint>, k: int) -> int {
    if chunks_denom(r, s, k) == 0 {
        0
    } else {
        10000 * chunks_score(r, s, k) / chunks_denom(r, s, k)
    }
}

/// What `estimate_delay` returns, as a mathematical value: the offset
/// in milliseconds and the match quality, or the error.
pub open spec fn estimate_result_spec(
    r: Seq<Fingerprint>,
    s: Seq<Fingerprint>,
    m: int,
    bucket_ms: int,
    min_match_centi_pct: int,
) -> Result<(int, int), PipelineError> {
    if chunks_energy(s) == 0 {
        Err(PipelineError::InsufficientSignal)
    } else {
        let k = best_offset_spec(r, s, m);
        let pct = match_pct_spec(r, s, k);
        if pct < min_match_centi_pct {
            Err(PipelineError::LowConfidenceMatch)
        } else {
            Ok((k * bucket_ms, pct))
        }
    }
}

/// The similarity share never exceeds the whole.
proof fn lemma_match_pct_range(r: Seq<Fingerprint>, s: Seq<Fingerprint>, k: int, c: int)
    requires
        c <= chunks_len(r, s),
    ensures
        chunks_score_upto(r, s, k, c) <= chunks_denom_upto(r, s, k, c),
    decreases c,
{
    if c > 0 {
        lemma_match_pct_range(r, s, k, c - 1);
        lemma_sum_min_le_sum_max(
            r[c - 1].energies@,
            s[c - 1].energies@,
            k,
            0,
            s[c - 1].energies@.len() as int,
        );
    }
}

/// Compare sampled fingerprints of a reference and a secondary source.
///
/// Searches bucket offsets in `[-max_shift_buckets, max_shift_buckets]`
/// for the one of maximal aggregate similarity (ties broken toward
/// zero), converts it to milliseconds at `bucket_ms` per bucket, and
/// grades it in hundredths of a percent. Fails with
/// `InsufficientSignal` exactly when the secondary chunks are all
/// silence, and with `LowConfidenceMatch` exactly when the grade falls
/// below `min_match_centi_pct`.
pub fn estimate_delay(
    reference: &Vec<Fingerprint>,
    secondary: &Vec<Fingerprint>,
    bucket_ms: u64,
    max_shift_buckets: usize,
    min_match_centi_pct: u32,
) -> (r: Result<DelayEstimate, PipelineError>)
    requires
        chunks_wf(reference@),
        chunks_wf(secondary@),
        max_shift_buckets <= MAX_BUCKETS,
        1 <= bucket_ms <= MAX_BUCKET_MS,
    ensures
        match r {
            Ok(est) => estimate_result_spec(
                reference@,
                secondary@,
                max_shift_buckets as int,
                bucket_ms as int,
                min_match_centi_pct as int,
            ) == Ok::<(int, int), PipelineError>((est.offset_ms as int, est.match_centi_pct as int))
                && est.match_centi_pct <= 10000 && -(max_shift_buckets as int) * (bucket_ms as int)
                <= est.offset_ms as int <= (max_shift_buckets as int) * (bucket_ms as int),
            Err(e) => estimate_result_spec(
                reference@,
                secondary@,
                max_shift_buckets as int,
                bucket_ms as int,
                min_match_centi_pct as int,
            ) == Err::<(int, int), PipelineError>(e),
        },
{
    let energy = total_energy(secondary);
    if energy == 0 {
        return Err(PipelineError::InsufficientSignal);
    }
    let k = search_best_offset(reference, secondary, max_shift_buckets);
    let score = score_chunks(reference, secondary, k);
    let denom = denom_chunks(reference, secondary, k);
    let pct: u32 = if denom == 0 {
        0
    } else {
        proof {
            lemma_match_pct_range(
                reference@,
                secondary@,
                k as int,
                chunks_len(reference@, secondary@),
            );
            assert((10000 * (score as int)) / (denom as int) <= 10000) by (nonlinear_arith)
                requires
                    0 <= score as int <= denom as int,
                    0 < denom as int,
            ;
        }
        ((10000u128 * (score as u128)) / (denom as u128)) as u32
    };
    if pct < min_match_centi_pct {
        return Err(PipelineError::LowConfidenceMatch);
    }
    proof {
        assert(-0x1000 * 0x100000 <= (k as int) * (bucket_ms as int) <= 0x1000 * 0x100000)
            by (nonlinear_arith)
            requires
                -0x1000 <= k as int <= 0x1000,
                1 <= bucket_ms as int <= 0x100000,
        ;
        assert(-(max_shift_buckets as int) * (bucket_ms as int) <= (k as int) * (bucket_ms as int)
            <= (max_shift_buckets as int) * (bucket_ms as int)) by (nonlinear_arith)
            requires
                -(max_shift_buckets as int) <= k as int <= max_shift_buckets as int,
                1 <= bucket_ms as int,
        ;
    }
    let offset_ms = k * (bucket_ms as i64);
    Ok(DelayEstimate { offset_ms, match_centi_pct: pct })
}

/// Shifting the summation index by the offset swaps the two envelopes'
/// roles: term `lo` of `(a, b, k)` is term `lo + k` of `(b, a, -k)`.
proof fn lemma_sum_min_shift(a: Seq<u64>, b: Seq<u64>, k: int, lo: int, hi: int)
    ensures
        sum_min_range(a, b, k, lo, hi) == sum_min_range(b, a, -k, lo + k, hi + k),
    decreases hi - lo,
{
    if lo < hi {
        lemma_sum_min_shift(a, b, k, lo + 1, hi);
        assert(overlap_min(a, b, k, lo) == overlap_min(b, a, -k, lo + k));
    }
}

/// Terms known to be zero on the left of a range do not change its sum.
proof fn lemma_sum_min_zero_left(a: Seq<u64>, b: Seq<u64>, k: int, lo: int, lo2: int, hi: int)
    requires
        lo <= lo2 <= hi,
        forall|i: int| lo <= i < lo2 ==> overlap_min(a, b, k, i) == 0,
    ensures
        sum_min_range(a, b, k, lo, hi) == sum_min_range(a, b, k, lo2, hi),
    decreases lo2 - lo,
{
    if lo < lo2 {
        lemma_sum_min_zero_left(a, b, k, lo + 1, lo2, hi);
    }
}

/// Terms known to be zero on the right of a range do not change its sum.
proof fn lemma_sum_min_zero_right(a: Seq<u64>, b: Seq<u64>, k: int, lo: int, hi2: int, hi: int)
    requires
        lo <= hi2 <= hi,
        forall|i: int| hi2 <= i < hi ==> overlap_min(a, b, k, i) == 0,
    ensures
        sum_min_range(a, b, k, lo, hi) == sum_min_range(a, b, k, lo, hi2),
    decreases hi - hi2,
{
    if hi2 < hi {
        lemma_sum_min_last(a, b, k, lo, hi);
        lemma_sum_min_zero_right(a, b, k, lo, hi2, hi - 1);
    }
}

/// Any range that covers the overlap gives the same sum as the
/// canonical one over `[0, b.len())`.
proof fn lemma_sum_min_cover(a: Seq<u64>, b: Seq<u64>, k: int, lo: int, hi: int)
    requires
        lo <= 0,
        hi >= b.len() as int,
    ensures
        sum_min_range(a, b, k, lo, hi) == score_at(a, b, k),
{
    let bl = b.len() as int;
    lemma_sum_min_zero_right(a, b, k, lo, bl, hi);
    lemma_sum_min_zero_left(a, b, k, lo, 0, bl);
}

/// The similarity of two envelopes does not depend on which of the two
/// is held fixed: comparing the other way round at the opposite offset
/// gives the same value.
pub proof fn lemma_score_symmetric(a: Seq<u64>, b: Seq<u64>, k: int)
    ensures
        score_at(b, a, -k) == score_at(a, b, k),
{
    let al = a.len() as int;
    let bl = b.len() as int;
    let lo = min(0, -k);
    let hi = max(bl, al - k);
    lemma_sum_min_cover(a, b, k, lo, hi);
    lemma_sum_min_shift(b, a, -k, lo + k, hi + k);
    assert(sum_min_range(b, a, -k, lo + k, hi + k) == sum_min_range(a, b, k, lo, hi));
    lemma_sum_min_cover(b, a, -k, lo + k, hi + k);
}

/// Chunkwise lifting of the envelope symmetry.
proof fn lemma_chunks_score_symmetric_upto(r: Seq<Fingerprint>, s: Seq<Fingerprint>, k: int, c: int)
    ensures
        chunks_score_upto(s, r, -k, c) == chunks_score_upto(r, s, k, c),
    decreases c,
{
    if c > 0 {
        lemma_chunks_score_symmetric_upto(r, s, k, c - 1);
        lemma_score_symmetric(r[c - 1].energies@, s[c - 1].energies@, k);
    }
}

/// Aggregate similarity is symmetric: swapping the two sources and
/// negating the offset leaves the score unchanged.
pub proof fn lemma_chunks_score_symmetric(r: Seq<Fingerprint>, s: Seq<Fingerprint>, k: int)
    ensures
        chunks_score(s, r, -k) == chunks_score(r, s, k),
{
    lemma_chunks_score_symmetric_upto(r, s, k, chunks_len(r, s));
}

/// The offset search is symmetric up to sign: searching with the two
/// sources swapped finds the negated offset, as long as the winning
/// offset's score differs from its mirror image's (a signal that is
/// periodic at the winning magnitude ties both ways, and then either
/// sign may win in either direction).
pub proof fn lemma_best_offset_antisymmetric(r: Seq<Fingerprint>, s: Seq<Fingerprint>, m: int)
    requires
        m >= 0,
        best_offset_spec(r, s, m) != 0 ==> chunks_score(r, s, -best_offset_spec(r, s, m))
            != chunks_score(r, s, best_offset_spec(r, s, m)),
    ensures
        best_offset_spec(s, r, m) == -best_offset_spec(r, s, m),
{
    let k1 = best_offset_spec(r, s, m);
    let k2 = best_offset_spec(s, r, m);
    lemma_best_offset_props(r, s, m, m);
    lemma_best_offset_props(s, r, m, m);
    lemma_chunks_score_symmetric(r, s, k1);
    lemma_chunks_score_symmetric(r, s, -k2);
    assert(!strictly_better(r, s, -k2, k1));
    assert(!strictly_better(s, r, -k1, k2));
    assert(chunks_score(s, r, -k1) == chunks_score(r, s, k1));
    assert(chunks_score(s, r, k2) == chunks_score(r, s, -k2));
    assert(chunks_score(r, s, -k2) == chunks_score(r, s, k1));
    assert(abs(k1) == abs(k2));
    if k2 != -k1 {
        assert(k2 == k1 && k1 != 0);
        assert(chunks_score(r, s, -k1) == chunks_score(r, s, k1));
        assert(false);
    }
}

/// Offset estimation is symmetric up to sign: when both directions
/// succeed (and the winning offset has no mirror-image tie), the two
/// estimated offsets are additive inverses.
pub proof fn lemma_estimate_antisymmetric(
    r: Seq<Fingerprint>,
    s: Seq<Fingerprint>,
    m: int,
    bucket_ms: int,
    min_pct: int,
)
    requires
        m >= 0,
        best_offset_spec(r, s, m) != 0 ==> chunks_score(r, s, -best_offset_spec(r, s, m))
            != chunks_score(r, s, best_offset_spec(r, s, m)),
        estimate_result_spec(r, s, m, bucket_ms, min_pct) is Ok,
        estimate_result_spec(s, r, m, bucket_ms, min_pct) is Ok,
    ensures
        estimate_result_spec(r, s, m, bucket_ms, min_pct)->Ok_0.0 + estimate_result_spec(
            s,
            r,
            m,
            bucket_ms,
            min_pct,
        )->Ok_0.0 == 0,
{
    lemma_best_offset_antisymmetric(r, s, m);
    let k1 = best_offset_spec(r, s, m);
    assert(k1 * bucket_ms + (-k1) * bucket_ms == 0) by (nonlinear_arith);
}

} // verus!
