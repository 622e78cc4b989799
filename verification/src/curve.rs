//! The duty-cycle calculator: a piecewise-linear fan curve over an ordered
//! step table.
//!
//! The curve is flat at the first step's duty cycle below the table, linear
//! between consecutive steps, and flat at the last step's duty cycle at and
//! above the table.

use vstd::prelude::*;
use vstd::arithmetic::div_mod::{lemma_div_is_ordered, lemma_div_pos_is_pos,
    lemma_div_multiples_vanish};
use vstd::arithmetic::mul::lemma_mul_inequality;
use crate::config::Step;

verus! {

/// A step table is well formed when temperatures strictly increase, duty
/// cycles never decrease, and every duty cycle is a percentage.
pub open spec fn steps_wf(s: Seq<Step>) -> bool {
    &&& forall|i: int, j: int|
        0 <= i < j < s.len() ==> #[trigger] s[i].temp < #[trigger] s[j].temp
    &&& forall|i: int, j: int|
        0 <= i <= j < s.len() ==> #[trigger] s[i].dcycle <= #[trigger] s[j].dcycle
    &&& forall|i: int| 0 <= i < s.len() ==> #[trigger] s[i].dcycle <= 100
}

/// Index of the first step whose temperature is at or above `temp`, or
/// `s.len()` when every step is cooler than `temp`.
pub open spec fn above_index(temp: u8, s: Seq<Step>) -> int
    decreases s.len(),
{
    if s.len() == 0 {
        0
    } else if s[0].temp >= temp {
        0
    } else {
        1 + above_index(temp, s.subrange(1, s.len() as int))
    }
}

/// `above_index` is a valid index (or the length), every step before it is
/// strictly cooler than `temp`, and the step at it (if any) is at or above
/// `temp`.
pub proof fn lemma_above_index_props(temp: u8, s: Seq<Step>)
    ensures
        0 <= above_index(temp, s) <= s.len(),
        forall|j: int| 0 <= j < above_index(temp, s) ==> #[trigger] s[j].temp < temp,
        above_index(temp, s) < s.len() ==> s[above_index(temp, s)].temp >= temp,
    decreases s.len(),
{
    if s.len() == 0 {
    } else if s[0].temp >= temp {
    } else {
        let tail = s.subrange(1, s.len() as int);
        lemma_above_index_props(temp, tail);
        let i = above_index(temp, s);
        assert forall|j: int| 0 <= j < i implies #[trigger] s[j].temp < temp by {
            if j >= 1 {
                assert(s[j] == tail[j - 1]);
            }
        }
        if i < s.len() {
            assert(s[i] == tail[i - 1]);
        }
    }
}

/// The linear interpolation the curve uses between a below step `(bt, bd)`
/// and an above step `(at_, ad)`, with truncating division.
pub open spec fn lin_interp(temp: int, bt: int, bd: int, at_: int, ad: int) -> int {
    bd + (temp - bt) * (ad - bd) / (at_ - bt)
}

/// The duty cycle the fan curve assigns to `temp`. Meaningful when the table
/// is well formed; an empty table defensively maps everything to 100.
pub open spec fn duty_for(temp: u8, s: Seq<Step>) -> int {
    let i = above_index(temp, s);
    if s.len() == 0 {
        100
    } else if i == s.len() {
        s[s.len() - 1].dcycle as int
    } else if i == 0 {
        s[0].dcycle as int
    } else {
        lin_interp(temp as int, s[i - 1].temp as int, s[i - 1].dcycle as int,
            s[i].temp as int, s[i].dcycle as int)
    }
}

/// Compute the duty cycle for `temp` from the zone's step table, by binary
/// search for the bracketing steps and linear interpolation between them.
///
/// The function is total: on a table that breaks the invariants it still
/// returns the nearest defensible value instead of panicking.
pub fn compute(temp: u8, steps: &Vec<Step>) -> (r: u8)
    ensures
        steps@.len() == 0 ==> r == 100,
        steps_wf(steps@) ==> r as int == duty_for(temp, steps@),
{
    let n = steps.len();
    if n == 0 {
        return 100;
    }

    let mut lo: usize = 0;
    let mut hi: usize = n;
    while lo < hi
        invariant
            lo <= hi <= n,
            n == steps@.len(),
            hi < n ==> steps@[hi as int].temp >= temp,
            steps_wf(steps@)
                ==> forall|j: int| 0 <= j < lo as int ==> #[trigger] steps@[j].temp < temp,
        decreases hi - lo,
    {
        let mid = lo + (hi - lo) / 2;
        if steps[mid].temp >= temp {
            hi = mid;
        } else {
            proof {
                if steps_wf(steps@) {
                    assert forall|j: int| 0 <= j < mid as int + 1
                        implies #[trigger] steps@[j].temp < temp by {
                        if j < mid as int {
                            assert(steps@[j].temp < steps@[mid as int].temp);
                        }
                    }
                }
            }
            lo = mid + 1;
        }
    }

    let i = lo;
    proof {
        lemma_above_index_props(temp, steps@);
        if steps_wf(steps@) {
            let k = above_index(temp, steps@);
            if (i as int) < k {
                assert(steps@[i as int].temp < temp);
            }
            if k < i as int {
                assert(steps@[k].temp < temp);
            }
            assert(i as int == k);
        }
    }

    if i == n {
        // Hotter than every configured step: flat at the last step's value.
        return steps[n - 1].dcycle;
    }
    if i == 0 {
        // At or below the first step: flat at its value.
        return steps[0].dcycle;
    }

    let b = steps[i - 1];
    let a = steps[i];
    if b.temp >= a.temp || temp <= b.temp || a.dcycle < b.dcycle {
        // Only reachable when the table breaks its invariants; treat the
        // window as flat at the below step's value.
        return b.dcycle;
    }

    let dt: u32 = (temp - b.temp) as u32;
    let dd: u32 = (a.dcycle - b.dcycle) as u32;
    let span: u32 = (a.temp - b.temp) as u32;
    assert(dt <= 255 && dd <= 255 && span >= 1);
    proof {
        assert(dt as int * dd as int <= 65025) by (nonlinear_arith)
            requires
                dt <= 255,
                dd <= 255,
        ;
    }
    let q: u32 = dt * dd / span;
    proof {
        // temp <= a.temp holds on every path out of the binary search.
        assert(steps@[i as int].temp >= temp);
        lemma_mul_inequality(dt as int, span as int, dd as int);
        lemma_div_is_ordered(dt as int * dd as int, span as int * dd as int, span as int);
        lemma_div_multiples_vanish(dd as int, span as int);
        assert(q as int <= dd as int);
    }
    let r32: u32 = b.dcycle as u32 + q;
    assert(r32 <= 255);
    r32 as u8
}

/// Flat clamp at the cool end: at or below the first step's temperature the
/// curve returns the first step's duty cycle.
pub proof fn lemma_compute_flat_low(temp: u8, s: Seq<Step>)
    requires
        steps_wf(s),
        s.len() > 0,
        temp <= s[0].temp,
    ensures
        duty_for(temp, s) == s[0].dcycle as int,
{
}

/// Flat clamp at the hot end: at or above the last step's temperature the
/// curve returns the last step's duty cycle.
pub proof fn lemma_compute_flat_high(temp: u8, s: Seq<Step>)
    requires
        steps_wf(s),
        s.len() > 0,
        temp >= s[s.len() - 1].temp,
    ensures
        duty_for(temp, s) == s[s.len() - 1].dcycle as int,
{
    lemma_above_index_props(temp, s);
    let i = above_index(temp, s);
    let last = s.len() - 1;
    if temp > s[last].temp {
        if i < s.len() {
            assert(s[i].temp >= temp);
            if i < last {
                assert(s[i].temp < s[last].temp);
            }
            assert(false);
        }
    } else {
        // temp == s[last].temp, so the first step at or above it is the last.
        assert forall|j: int| 0 <= j < last implies #[trigger] s[j].temp < temp by {
            assert(s[j].temp < s[last].temp);
        }
        if i < last {
            assert(s[i].temp >= temp);
            assert(s[i].temp < s[last].temp);
            assert(false);
        }
        assert(i == last);
        if last > 0 {
            let bt = s[last - 1].temp as int;
            let bd = s[last - 1].dcycle as int;
            let at_ = s[last].temp as int;
            let ad = s[last].dcycle as int;
            assert(s[last - 1].temp < s[last].temp);
            assert(temp as int == at_);
            lemma_div_multiples_vanish(ad - bd, at_ - bt);
            assert((at_ - bt) * (ad - bd) / (at_ - bt) == ad - bd);
            assert(duty_for(temp, s) == bd + (at_ - bt) * (ad - bd) / (at_ - bt));
        }
    }
}

/// Within the segment ending at step `i` (`0 < i < s.len()`), the curve stays
/// between the two bracketing duty cycles.
proof fn lemma_segment_bounds(temp: u8, s: Seq<Step>)
    requires
        steps_wf(s),
        0 < above_index(temp, s) < s.len(),
    ensures
        s[above_index(temp, s) - 1].dcycle as int <= duty_for(temp, s),
        duty_for(temp, s) <= s[above_index(temp, s)].dcycle as int,
{
    lemma_above_index_props(temp, s);
    let i = above_index(temp, s);
    let bt = s[i - 1].temp as int;
    let bd = s[i - 1].dcycle as int;
    let at_ = s[i].temp as int;
    let ad = s[i].dcycle as int;
    assert(s[i - 1].temp < s[i].temp);
    assert(s[i - 1].dcycle <= s[i].dcycle);
    assert(s[i - 1].temp < temp);
    assert(s[i].temp >= temp);
    let t = temp as int;
    lemma_div_pos_is_pos((t - bt) * (ad - bd), at_ - bt);
    lemma_mul_inequality(t - bt, at_ - bt, ad - bd);
    lemma_div_is_ordered((t - bt) * (ad - bd), (at_ - bt) * (ad - bd), at_ - bt);
    lemma_div_multiples_vanish(ad - bd, at_ - bt);
    assert((t - bt) * (ad - bd) >= 0) by (nonlinear_arith)
        requires t - bt >= 0, ad - bd >= 0;
}

/// The curve's value always lies between the duty cycles of the steps that
/// bracket the temperature (inclusive).
pub proof fn lemma_compute_bracketed(temp: u8, s: Seq<Step>, k: int)
    requires
        steps_wf(s),
        0 <= k < s.len() - 1,
        s[k].temp <= temp <= s[k + 1].temp,
    ensures
        s[k].dcycle as int <= duty_for(temp, s),
        duty_for(temp, s) <= s[k + 1].dcycle as int,
{
    lemma_above_index_props(temp, s);
    let i = above_index(temp, s);
    assert(s[k + 1].temp >= temp);
    if i > k + 1 {
        assert(s[k + 1].temp < temp);
        assert(false);
    }
    if i <= k {
        // Every step before `i` is cooler, so s[k].temp == temp is forced and
        // the match is exact at step k itself.
        if s[k].temp < temp {
            assert(i < s.len());
            if i < k {
                assert(s[i].temp < s[k].temp);
            }
            assert(s[i].temp >= temp);
            assert(false);
        }
        assert(s[k].temp == temp);
        if i < k {
            assert(s[i].temp < s[k].temp);
            assert(s[i].temp >= temp);
            assert(false);
        }
        assert(i == k);
        assert(s[k].dcycle <= s[k + 1].dcycle);
        if i == 0 {
            assert(duty_for(temp, s) == s[0].dcycle as int);
        } else {
            // An exact temperature hit interpolates to exactly s[k].dcycle.
            let bt = s[i - 1].temp as int;
            let bd = s[i - 1].dcycle as int;
            let at_ = s[i].temp as int;
            let ad = s[i].dcycle as int;
            assert(s[i - 1].temp < s[i].temp);
            assert(s[i - 1].dcycle <= s[i].dcycle);
            assert(temp as int == at_);
            lemma_div_multiples_vanish(ad - bd, at_ - bt);
            assert((at_ - bt) * (ad - bd) / (at_ - bt) == ad - bd);
            assert(duty_for(temp, s) == ad);
        }
    } else {
        assert(i == k + 1);
        lemma_segment_bounds(temp, s);
    }
}

/// Monotonicity helper: the curve's value never exceeds the duty cycle of the
/// step at `above_index` (when one exists).
proof fn lemma_duty_upper(temp: u8, s: Seq<Step>)
    requires
        steps_wf(s),
        s.len() > 0,
        above_index(temp, s) < s.len(),
    ensures
        duty_for(temp, s) <= s[above_index(temp, s)].dcycle as int,
{
    let i = above_index(temp, s);
    lemma_above_index_props(temp, s);
    if i == 0 {
    } else {
        lemma_segment_bounds(temp, s);
    }
}

/// Monotonicity helper: the curve's value is at least the duty cycle of the
/// step just below `above_index` (when one exists).
proof fn lemma_duty_lower(temp: u8, s: Seq<Step>)
    requires
        steps_wf(s),
        s.len() > 0,
        above_index(temp, s) > 0,
    ensures
        duty_for(temp, s) >= s[above_index(temp, s) - 1].dcycle as int,
{
    let i = above_index(temp, s);
    lemma_above_index_props(temp, s);
    if i == s.len() {
        assert(s[i - 1].dcycle <= s[s.len() - 1].dcycle);
    } else {
        lemma_segment_bounds(temp, s);
    }
}

/// The fan curve is monotonic: a hotter reading never lowers the duty cycle.
pub proof fn lemma_compute_monotonic(t1: u8, t2: u8, s: Seq<Step>)
    requires
        steps_wf(s),
        t1 <= t2,
    ensures
        duty_for(t1, s) <= duty_for(t2, s),
{
    if s.len() == 0 {
        return;
    }
    lemma_above_index_props(t1, s);
    lemma_above_index_props(t2, s);
    let i1 = above_index(t1, s);
    let i2 = above_index(t2, s);
    if i2 < i1 {
        assert(s[i2].temp < t1);
        assert(s[i2].temp >= t2);
        assert(false);
    }
    if i1 == i2 {
        let i = i1;
        if i == s.len() || i == 0 {
        } else {
            let bt = s[i - 1].temp as int;
            let bd = s[i - 1].dcycle as int;
            let at_ = s[i].temp as int;
            let ad = s[i].dcycle as int;
            assert(s[i - 1].temp < s[i].temp);
            assert(s[i - 1].dcycle <= s[i].dcycle);
            lemma_mul_inequality(t1 as int - bt, t2 as int - bt, ad - bd);
            lemma_div_is_ordered((t1 as int - bt) * (ad - bd), (t2 as int - bt) * (ad - bd),
                at_ - bt);
        }
    } else {
        // i1 < i2: pass through the intermediate step duty cycles.
        lemma_duty_upper(t1, s);
        lemma_duty_lower(t2, s);
        assert(s[i1].dcycle <= s[i2 - 1].dcycle);
    }
}

} // verus!
