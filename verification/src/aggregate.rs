//! Delay Aggregator: turns per-source raw offsets (relative to the
//! reference, which sits at zero) into final non-negative delays plus
//! the single global shift that realizes them.
//!
//! Pure and deterministic; the proofs at the end show that the result
//! does not depend on the order the offsets arrive in.

use vstd::prelude::*;
use vstd::seq_lib::group_to_multiset_ensures;
use vstd::multiset::Multiset;

verus! {

/// Estimated raw offset of one source relative to the reference.
/// Negative means the source starts earlier than the reference.
#[derive(Clone, Debug)]
pub struct RawOffset {
    pub name: String,
    pub offset_ms: i64,
}

/// Final delay applied to one source's timestamps in the output.
#[derive(Clone, Debug)]
pub struct SourceDelay {
    pub name: String,
    pub delay_ms: i64,
}

/// The aggregated result: a delay per source plus the uniform shift
/// that was added to every raw offset so none stayed negative.
#[derive(Clone, Debug)]
pub struct Delays {
    pub source_delays_ms: Vec<SourceDelay>,
    pub global_shift_ms: i64,
}

/// Bound on the magnitude of a raw offset, so that adding the global
/// shift cannot overflow an `i64`.
pub const MAX_ABS_OFFSET_MS: i64 = 0x3FFF_FFFF_FFFF_FFFF;

/// The raw offsets as mathematical integers, in input order.
pub open spec fn offsets_view(offsets: Seq<RawOffset>) -> Seq<int> {
    offsets.map_values(|o: RawOffset| o.offset_ms as int)
}

/// The magnitude needed so that no source requires a negative output
/// timestamp: `-min(0, min(all offsets))`.
pub open spec fn global_shift_spec(offs: Seq<int>) -> int
    recommends
        offs.len() > 0,
{
    if offs.min() < 0 {
        -offs.min()
    } else {
        0
    }
}

/// The aggregated (name, delay) pairs that `aggregate_delays` returns,
/// as a sequence of mathematical values.
pub open spec fn aggregated_pairs_spec(offsets: Seq<RawOffset>) -> Seq<(Seq<char>, int)> {
    offsets.map_values(
        |o: RawOffset| (o.name@, o.offset_ms + global_shift_spec(offsets_view(offsets))),
    )
}

/// Smallest raw offset, found by one pass.
fn min_offset(offsets: &Vec<RawOffset>) -> (m: i64)
    requires
        offsets@.len() > 0,
    ensures
        m == offsets_view(offsets@).min(),
{
    let mut m: i64 = offsets[0].offset_ms;
    let mut i: usize = 1;
    proof {
        assert(offsets_view(offsets@).take(1) =~= seq![offsets@[0].offset_ms as int]);
    }
    while i < offsets.len()
        invariant
            1 <= i <= offsets@.len(),
            m == offsets_view(offsets@).take(i as int).min(),
        decreases offsets@.len() - i,
    {
        let ghost pre = offsets_view(offsets@).take(i as int);
        proof {
            assert(offsets_view(offsets@).take(i + 1) =~= pre.push(
                offsets@[i as int].offset_ms as int,
            ));
            lemma_min_push(pre, offsets@[i as int].offset_ms as int);
        }
        if offsets[i].offset_ms < m {
            m = offsets[i].offset_ms;
        }
        i += 1;
    }
    proof {
        assert(offsets_view(offsets@).take(offsets@.len() as int) =~= offsets_view(offsets@));
    }
    m
}

/// Combine per-source raw offsets into final delays.
///
/// The global shift is `-min(0, min(all offsets))`; each final delay is
/// its raw offset plus that shift. Every delay comes out non-negative,
/// and as soon as some offset is at most zero (the reference's own zero
/// entry guarantees this in practice) at least one delay is exactly
/// zero.
pub fn aggregate_delays(offsets: &Vec<RawOffset>) -> (d: Delays)
    requires
        offsets@.len() > 0,
        forall|i: int|
            0 <= i < offsets@.len() ==> -MAX_ABS_OFFSET_MS
                <= (#[trigger] offsets@[i]).offset_ms <= MAX_ABS_OFFSET_MS,
    ensures
        d.global_shift_ms == global_shift_spec(offsets_view(offsets@)),
        d.global_shift_ms >= 0,
        d.source_delays_ms@.len() == offsets@.len(),
        forall|i: int|
            0 <= i < offsets@.len() ==> {
                &&& (#[trigger] d.source_delays_ms@[i]).name@ == offsets@[i].name@
                &&& d.source_delays_ms@[i].delay_ms == offsets@[i].offset_ms
                    + d.global_shift_ms
            },
        forall|i: int|
            0 <= i < offsets@.len() ==> (#[trigger] d.source_delays_ms@[i]).delay_ms >= 0,
        offsets_view(offsets@).min() <= 0 ==> exists|i: int|
            0 <= i < offsets@.len() && (#[trigger] d.source_delays_ms@[i]).delay_ms == 0,
{
    let ghost offs = offsets_view(offsets@);
    proof {
        lemma_min_properties(offs);
        assert forall|k: int|
            0 <= k < offsets@.len() implies offs.min() <= (#[trigger] offsets@[k]).offset_ms by {
            assert(offs[k] == offsets@[k].offset_ms);
        }
    }
    let m = min_offset(offsets);
    let shift: i64 = if m < 0 {
        -m
    } else {
        0
    };
    let mut delays: Vec<SourceDelay> = Vec::new();
    let mut i: usize = 0;
    while i < offsets.len()
        invariant
            i <= offsets@.len(),
            shift == global_shift_spec(offs),
            shift >= 0,
            shift <= MAX_ABS_OFFSET_MS,
            offs == offsets_view(offsets@),
            forall|k: int|
                0 <= k < offsets@.len() ==> -MAX_ABS_OFFSET_MS
                    <= (#[trigger] offsets@[k]).offset_ms <= MAX_ABS_OFFSET_MS,
            forall|k: int|
                0 <= k < offsets@.len() ==> offs.min() <= (#[trigger] offsets@[k]).offset_ms,
            delays@.len() == i,
            forall|k: int|
                0 <= k < i ==> {
                    &&& (#[trigger] delays@[k]).name@ == offsets@[k].name@
                    &&& delays@[k].delay_ms == offsets@[k].offset_ms + shift
                },
        decreases offsets@.len() - i,
    {
        let entry = &offsets[i];
        delays.push(SourceDelay { name: entry.name.clone(), delay_ms: entry.offset_ms + shift });
        i += 1;
    }
    let d = Delays { source_delays_ms: delays, global_shift_ms: shift };
    proof {
        if offs.min() <= 0 {
            let j = choose|j: int| 0 <= j < offs.len() && offs[j] == offs.min();
            assert(offs[j] == offsets@[j].offset_ms);
            assert(d.source_delays_ms@[j].delay_ms == 0);
        }
    }
    d
}

/// `Seq::min()` is a lower bound and is attained.
pub proof fn lemma_min_properties(s: Seq<int>)
    requires
        s.len() > 0,
    ensures
        forall|i: int| 0 <= i < s.len() ==> s.min() <= s[i],
        exists|i: int| 0 <= i < s.len() && s[i] == s.min(),
{
    s.min_ensures();
    assert(s.contains(s.min()));
}

/// Appending one element to a non-empty sequence updates the minimum
/// the obvious way.
proof fn lemma_min_push(pre: Seq<int>, x: int)
    requires
        pre.len() > 0,
    ensures
        pre.push(x).min() == if x < pre.min() {
            x
        } else {
            pre.min()
        },
{
    let post = pre.push(x);
    let v: int = if x < pre.min() {
        x
    } else {
        pre.min()
    };
    lemma_min_properties(pre);
    lemma_min_properties(post);
    let k = choose|k: int| 0 <= k < pre.len() && pre[k] == pre.min();
    assert(post[k] == pre.min());
    assert(post[pre.len() as int] == x);
    assert(forall|i: int| 0 <= i < post.len() ==> v <= post[i]);
    let j = choose|j: int| 0 <= j < post.len() && post[j] == post.min();
    assert(v <= post.min());
    if x < pre.min() {
        assert(post.min() <= post[pre.len() as int]);
    } else {
        assert(post.min() <= post[k]);
    }
}

/// Two sequences with the same elements have the same minimum: the
/// minimum is a function of the multiset alone.
pub proof fn lemma_min_order_invariant(s1: Seq<int>, s2: Seq<int>)
    requires
        s1.len() > 0,
        s1.to_multiset() == s2.to_multiset(),
    ensures
        s1.min() == s2.min(),
{
    broadcast use group_to_multiset_ensures;

    assert(s1.to_multiset().len() == s1.len());
    assert(s2.to_multiset().len() == s2.len());
    lemma_min_properties(s1);
    lemma_min_properties(s2);
    assert(s1.contains(s1.min()));
    assert(s1.to_multiset().count(s1.min()) > 0);
    assert(s2.to_multiset().count(s1.min()) > 0);
    assert(s2.contains(s1.min()));
    assert(s2.contains(s2.min()));
    assert(s2.to_multiset().count(s2.min()) > 0);
    assert(s1.to_multiset().count(s2.min()) > 0);
    assert(s1.contains(s2.min()));
}

/// Mapping a function over two sequences that hold the same elements
/// yields sequences that hold the same elements.
pub proof fn lemma_map_values_permutation<A, B>(s1: Seq<A>, s2: Seq<A>, f: spec_fn(A) -> B)
    requires
        s1.to_multiset() == s2.to_multiset(),
    ensures
        s1.map_values(f).to_multiset() == s2.map_values(f).to_multiset(),
    decreases s1.len(),
{
    broadcast use group_to_multiset_ensures;
    broadcast use vstd::seq_lib::to_multiset_remove;
    broadcast use vstd::multiset::group_multiset_axioms;

    if s1.len() == 0 {
        assert(s1.to_multiset().len() == s1.len());
        assert(s2.to_multiset().len() == s2.len());
        assert(s2.len() == 0);
        assert(s1.map_values(f) =~= Seq::<B>::empty());
        assert(s2.map_values(f) =~= Seq::<B>::empty());
        assert(s1.map_values(f).to_multiset() =~= s2.map_values(f).to_multiset());
    } else {
        let a = s1[0];
        assert(s1.contains(a));
        assert(s1.to_multiset().count(a) > 0);
        assert(s2.to_multiset().count(a) > 0);
        assert(s2.contains(a));
        let i = choose|i: int| 0 <= i < s2.len() && s2[i] == a;
        let r1 = s1.remove(0);
        let r2 = s2.remove(i);
        assert(r1.to_multiset() == s1.to_multiset().remove(a));
        assert(r2.to_multiset() == s2.to_multiset().remove(a));
        lemma_map_values_permutation(r1, r2, f);
        assert(r1.map_values(f) =~= s1.map_values(f).remove(0));
        assert(r2.map_values(f) =~= s2.map_values(f).remove(i));
        let m1 = s1.map_values(f).to_multiset();
        let m2 = s2.map_values(f).to_multiset();
        assert(s1.map_values(f)[0] == f(a));
        assert(s2.map_values(f)[i] == f(a));
        assert(s1.map_values(f).remove(0).to_multiset() == m1.remove(f(a)));
        assert(s2.map_values(f).remove(i).to_multiset() == m2.remove(f(a)));
        assert(m1.remove(f(a)) == m2.remove(f(a)));
        assert(s1.map_values(f).contains(f(a)));
        assert(s2.map_values(f).contains(f(a)));
        assert(m1.count(f(a)) > 0);
        assert(m2.count(f(a)) > 0);
        assert forall|b: B| m1.count(b) == m2.count(b) by {
            if b == f(a) {
                assert(m1.remove(f(a)).count(b) == m2.remove(f(a)).count(b));
            } else {
                assert(m1.remove(f(a)).count(b) == m1.count(b));
                assert(m2.remove(f(a)).count(b) == m2.count(b));
                assert(m1.remove(f(a)).count(b) == m2.remove(f(a)).count(b));
            }
        }
        assert(m1 =~= m2);
    }
}

/// The Delay Aggregator's output is invariant under reordering its
/// input: a permutation of the raw offsets leaves the global shift
/// unchanged and permutes the (name, delay) pairs the same way, and as
/// long as some offset is at most zero the smallest delay is exactly
/// zero.
pub proof fn lemma_aggregate_order_invariant(o1: Seq<RawOffset>, o2: Seq<RawOffset>)
    requires
        o1.len() > 0,
        o1.to_multiset() == o2.to_multiset(),
    ensures
        global_shift_spec(offsets_view(o1)) == global_shift_spec(offsets_view(o2)),
        aggregated_pairs_spec(o1).to_multiset() == aggregated_pairs_spec(o2).to_multiset(),
{
    broadcast use group_to_multiset_ensures;

    lemma_map_values_permutation(o1, o2, |o: RawOffset| o.offset_ms as int);
    assert(offsets_view(o1) =~= o1.map_values(|o: RawOffset| o.offset_ms as int));
    assert(offsets_view(o2) =~= o2.map_values(|o: RawOffset| o.offset_ms as int));
    lemma_min_order_invariant(offsets_view(o1), offsets_view(o2));
    let shift = global_shift_spec(offsets_view(o1));
    lemma_map_values_permutation(o1, o2, |o: RawOffset| (o.name@, o.offset_ms + shift));
    assert(aggregated_pairs_spec(o1) =~= o1.map_values(
        |o: RawOffset| (o.name@, o.offset_ms + shift),
    ));
    assert(aggregated_pairs_spec(o2) =~= o2.map_values(
        |o: RawOffset| (o.name@, o.offset_ms + shift),
    ));
}

} // verus!
