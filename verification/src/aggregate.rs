//! The temperature aggregator: one value out of the readings of all of a
//! zone's sources, per the zone's aggregation policy.

use vstd::prelude::*;
use vstd::arithmetic::div_mod::{lemma_div_is_ordered, lemma_div_multiples_vanish,
    lemma_div_pos_is_pos};
use vstd::multiset::Multiset;
use crate::config::Aggregation;

verus! {

broadcast use vstd::multiset::group_multiset_axioms;

/// A sequence of readings in non-increasing (hottest first) order.
pub open spec fn sorted_desc(s: Seq<u8>) -> bool {
    forall|i: int, j: int| #![trigger s[i], s[j]] 0 <= i <= j < s.len() ==> s[i] >= s[j]
}

/// Sum of a sequence of readings.
pub open spec fn sum_of(s: Seq<u8>) -> int
    decreases s.len(),
{
    if s.len() == 0 {
        0
    } else {
        sum_of(s.drop_last()) + s.last()
    }
}

pub proof fn lemma_sum_bounds(s: Seq<u8>)
    ensures
        0 <= sum_of(s) <= 255 * s.len(),
    decreases s.len(),
{
    if s.len() > 0 {
        lemma_sum_bounds(s.drop_last());
    }
}

proof fn lemma_sum_remove(s: Seq<u8>, i: int)
    requires
        0 <= i < s.len(),
    ensures
        sum_of(s.remove(i)) == sum_of(s) - s[i],
    decreases s.len(),
{
    if i == s.len() - 1 {
        assert(s.remove(i) =~= s.drop_last());
    } else {
        assert(s.remove(i).drop_last() =~= s.drop_last().remove(i));
        assert(s.remove(i).last() == s.last());
        lemma_sum_remove(s.drop_last(), i);
    }
}

/// The sum of a sequence depends only on which readings it holds, not on
/// their order.
pub proof fn lemma_sum_permutation(s1: Seq<u8>, s2: Seq<u8>)
    requires
        s1.to_multiset() == s2.to_multiset(),
    ensures
        sum_of(s1) == sum_of(s2),
    decreases s1.len(),
{
    vstd::seq_lib::to_multiset_len(s1);
    vstd::seq_lib::to_multiset_len(s2);
    if s1.len() == 0 {
    } else {
        let x = s1.last();
        assert(s1.remove(s1.len() - 1) =~= s1.drop_last());
        vstd::seq_lib::to_multiset_remove(s1, s1.len() - 1);
        vstd::seq_lib::to_multiset_contains(s1, x);
        vstd::seq_lib::to_multiset_contains(s2, x);
        assert(s1.contains(x));
        assert(s2.contains(x));
        let j = choose|j: int| 0 <= j < s2.len() && s2[j] == x;
        vstd::seq_lib::to_multiset_remove(s2, j);
        lemma_sum_permutation(s1.drop_last(), s2.remove(j));
        lemma_sum_remove(s2, j);
    }
}

/// There is only one hottest-first ordering of a multiset of readings, so
/// the existential in [`aggregate`]'s contract pins a single value: any two
/// sorted sequences a caller exhibits for the same readings are equal.
pub proof fn lemma_sorted_desc_unique(s1: Seq<u8>, s2: Seq<u8>)
    requires
        sorted_desc(s1),
        sorted_desc(s2),
        s1.to_multiset() == s2.to_multiset(),
    ensures
        s1 == s2,
    decreases s1.len(),
{
    vstd::seq_lib::to_multiset_len(s1);
    vstd::seq_lib::to_multiset_len(s2);
    if s1.len() == 0 {
        assert(s1 =~= s2);
    } else {
        vstd::seq_lib::to_multiset_contains(s1, s1[0]);
        vstd::seq_lib::to_multiset_contains(s2, s1[0]);
        vstd::seq_lib::to_multiset_contains(s1, s2[0]);
        vstd::seq_lib::to_multiset_contains(s2, s2[0]);
        assert(s2.contains(s1[0]));
        assert(s1.contains(s2[0]));
        let j1 = choose|j: int| 0 <= j < s2.len() && s2[j] == s1[0];
        let j2 = choose|j: int| 0 <= j < s1.len() && s1[j] == s2[0];
        assert(s2[0] >= s2[j1]);
        assert(s1[0] >= s1[j2]);
        assert(s1[0] == s2[0]);
        let t1 = s1.remove(0);
        let t2 = s2.remove(0);
        vstd::seq_lib::to_multiset_remove(s1, 0);
        vstd::seq_lib::to_multiset_remove(s2, 0);
        assert(sorted_desc(t1)) by {
            assert forall|a: int, b: int| #![trigger t1[a], t1[b]]
                0 <= a <= b < t1.len() implies t1[a] >= t1[b] by {
                assert(t1[a] == s1[a + 1] && t1[b] == s1[b + 1]);
            }
        }
        assert(sorted_desc(t2)) by {
            assert forall|a: int, b: int| #![trigger t2[a], t2[b]]
                0 <= a <= b < t2.len() implies t2[a] >= t2[b] by {
                assert(t2[a] == s2[a + 1] && t2[b] == s2[b + 1]);
            }
        }
        lemma_sorted_desc_unique(t1, t2);
        assert(s1 =~= s2) by {
            assert forall|a: int| 0 <= a < s1.len() implies s1[a] == s2[a] by {
                if a > 0 {
                    assert(s1[a] == t1[a - 1] && s2[a] == t2[a - 1]);
                }
            }
        }
    }
}

/// An aggregation policy is well formed when an explicit `top` count is
/// positive (a zero count is rejected by configuration validation).
pub open spec fn agg_wf(agg: Aggregation) -> bool {
    match agg {
        Aggregation::Maximum => true,
        Aggregation::Average { top } => match top {
            Some(k) => k > 0,
            None => true,
        },
    }
}

/// The aggregate of readings already sorted hottest first: the first reading
/// for `Maximum`; for `Average`, the truncating integer average of the `top`
/// hottest readings (all of them when `top` is unset, and no more than there
/// are when `top` exceeds the count, still divided by `top`).
pub open spec fn agg_spec(sorted: Seq<u8>, agg: Aggregation) -> int {
    match agg {
        Aggregation::Maximum => sorted[0] as int,
        Aggregation::Average { top } => {
            let n = match top {
                Some(k) => k as int,
                None => sorted.len() as int,
            };
            let taken = if n <= sorted.len() {
                n
            } else {
                sorted.len() as int
            };
            sum_of(sorted.take(taken)) / n
        },
    }
}

/// Sort readings hottest first (selection sort; ties keep an arbitrary
/// order, which no aggregate depends on).
pub fn sort_descending(readings: &Vec<u8>) -> (r: Vec<u8>)
    ensures
        sorted_desc(r@),
        r@.to_multiset() == readings@.to_multiset(),
        r@.len() == readings@.len(),
{
    let ghost orig: Seq<u8> = readings@;
    let mut rest: Vec<u8> = Vec::new();
    let mut c: usize = 0;
    while c < readings.len()
        invariant
            c <= readings@.len(),
            rest@ == readings@.take(c as int),
        decreases readings@.len() - c,
    {
        rest.push(readings[c]);
        proof {
            assert(rest@ =~= readings@.take(c as int + 1));
        }
        c = c + 1;
    }
    proof {
        assert(rest@ =~= orig);
    }
    let mut out: Vec<u8> = Vec::new();
    proof {
        vstd::seq_lib::to_multiset_len(out@);
        assert(out@.to_multiset() =~= Multiset::<u8>::empty());
    }
    while rest.len() > 0
        invariant
            sorted_desc(out@),
            out@.to_multiset().add(rest@.to_multiset()) =~= orig.to_multiset(),
            out@.len() + rest@.len() == orig.len(),
            forall|a: int, b: int| #![trigger out@[a], rest@[b]]
                0 <= a < out@.len() && 0 <= b < rest@.len() ==> out@[a] >= rest@[b],
        decreases rest@.len(),
    {
        let mut mi: usize = 0;
        let mut k: usize = 1;
        while k < rest.len()
            invariant
                rest@.len() > 0,
                mi < k <= rest@.len(),
                forall|j: int| 0 <= j < k as int ==> rest@[j] <= rest@[mi as int],
            decreases rest@.len() - k,
        {
            if rest[k] > rest[mi] {
                mi = k;
            }
            k = k + 1;
        }
        let ghost rest_before: Seq<u8> = rest@;
        let ghost out_before: Seq<u8> = out@;
        let x = rest.remove(mi);
        out.push(x);
        proof {
            assert(x == rest_before[mi as int]);
            vstd::seq_lib::to_multiset_remove(rest_before, mi as int);
            vstd::seq_lib::to_multiset_build(out_before, x);
            vstd::seq_lib::to_multiset_contains(rest_before, x);
            assert(rest_before.contains(x));
            assert(rest_before.to_multiset().count(x) > 0);
            assert(out@.to_multiset().add(rest@.to_multiset())
                =~= out_before.to_multiset().add(rest_before.to_multiset()));
            assert forall|b: int| 0 <= b < rest@.len() implies rest@[b] <= x by {
                if b < mi as int {
                    assert(rest@[b] == rest_before[b]);
                } else {
                    assert(rest@[b] == rest_before[b + 1]);
                }
            }
            assert forall|a: int, b: int|
                0 <= a <= b < out@.len() implies #[trigger] out@[a] >= #[trigger] out@[b] by {
                if b < out_before.len() {
                    assert(out@[a] == out_before[a] && out@[b] == out_before[b]);
                } else if a < out_before.len() {
                    assert(out@[b] == x);
                    assert(out_before[a] >= rest_before[mi as int]);
                }
            }
        }
    }
    proof {
        vstd::seq_lib::to_multiset_len(rest@);
        assert(rest@.to_multiset() =~= Multiset::<u8>::empty());
        assert(out@.to_multiset() =~= orig.to_multiset());
    }
    out
}

/// Combine one attempt's readings into a single temperature per the zone's
/// aggregation policy. The result is the aggregate of some hottest-first
/// ordering of the readings (which ordering does not matter: the maximum and
/// every top-`n` sum are the same for all of them).
pub fn aggregate(readings: &Vec<u8>, agg: Aggregation) -> (r: u8)
    requires
        readings@.len() > 0,
        readings@.len() <= 0xFFFF_FFFF,
        agg_wf(agg),
    ensures
        exists|s: Seq<u8>|
            sorted_desc(s) && s.to_multiset() == readings@.to_multiset()
                && r as int == agg_spec(s, agg),
        agg is Maximum ==> readings@.to_multiset().contains(r)
            && forall|i: int| 0 <= i < readings@.len() ==> readings@[i] <= r,
        agg matches Aggregation::Average { top: None }
            ==> r as int == sum_of(readings@) / (readings@.len() as int),
        (match agg {
            Aggregation::Average { top: Some(k) } => k as int >= readings@.len()
                ==> r as int == sum_of(readings@) / (k as int),
            _ => true,
        }),
{
    let ghost orig: Seq<u8> = readings@;
    let sorted = sort_descending(readings);
    let ghost s: Seq<u8> = sorted@;

    match agg {
        Aggregation::Maximum => {
            let r = sorted[0];
            proof {
                vstd::seq_lib::to_multiset_contains(s, r);
                assert(s.contains(r));
                assert forall|i: int| 0 <= i < orig.len() implies orig[i] <= r by {
                    vstd::seq_lib::to_multiset_contains(orig, orig[i]);
                    vstd::seq_lib::to_multiset_contains(s, orig[i]);
                    assert(orig.contains(orig[i]));
                    assert(s.contains(orig[i]));
                    let j = choose|j: int| 0 <= j < s.len() && s[j] == orig[i];
                    assert(s[0] >= s[j]);
                }
                assert(r as int == agg_spec(s, agg));
            }
            r
        },
        Aggregation::Average { top } => {
            let len = sorted.len();
            let n: usize = match top {
                Some(k) => k,
                None => len,
            };
            let taken: usize = if n <= len {
                n
            } else {
                len
            };
            let mut sum: u64 = 0;
            let mut i: usize = 0;
            while i < taken
                invariant
                    i <= taken <= s.len() <= 0xFFFF_FFFF,
                    s == sorted@,
                    sum == sum_of(s.take(i as int)),
                    sum <= 255 * i,
                decreases taken - i,
            {
                proof {
                    assert(s.take(i as int + 1).drop_last() =~= s.take(i as int));
                    assert(s.take(i as int + 1).last() == s[i as int]);
                }
                sum = sum + sorted[i] as u64;
                i = i + 1;
            }
            proof {
                lemma_sum_bounds(s.take(taken as int));
                assert(255 * (taken as int) <= 255 * (n as int));
                lemma_div_is_ordered(sum as int, 255 * (n as int), n as int);
                lemma_div_multiples_vanish(255, n as int);
                lemma_div_pos_is_pos(sum as int, n as int);
            }
            let r64: u64 = sum / (n as u64);
            assert(r64 <= 255);
            proof {
                assert(r64 as int == agg_spec(s, agg));
                if taken == len {
                    assert(s.take(taken as int) =~= s);
                    lemma_sum_permutation(s, orig);
                }
            }
            r64 as u8
        },
    }
}

} // verus!
