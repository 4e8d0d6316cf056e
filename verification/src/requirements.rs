//! The requirement model: how a stat value is turned into a gain
//! contribution, either linearly (`RequirementWeighted`) or up to a hard cap
//! with diminishing returns (`RequirementCap`).
//!
//! All gains are exact fixed-point numbers in hundredths of a point
//! ("centi-gain"); a weight is given in hundredths of a point per stat point.

use vstd::prelude::*;
use crate::Stat;
use crate::character::CurStats;

verus! {

/// Clamp an unbounded gain to the range of `i128`.
pub open spec fn sat128(x: int) -> int {
    if x > i128::MAX as int {
        i128::MAX as int
    } else if x < i128::MIN as int {
        i128::MIN as int
    } else {
        x
    }
}

/// Add two gains, saturating at the bounds of `i128`.
pub fn sat_add_i128(a: i128, b: i128) -> (r: i128)
    ensures
        r as int == sat128(a as int + b as int),
{
    if b >= 0 {
        if a > i128::MAX - b {
            i128::MAX
        } else {
            a + b
        }
    } else {
        if a < i128::MIN - b {
            i128::MIN
        } else {
            a + b
        }
    }
}

/// Centi-gain a cap requirement grants a full profile whose capped stat
/// stands at `value`: every point up to the remaining headroom counts with
/// the requirement's weight, points past it count nothing.
pub open spec fn cap_gain_abs(remaining: int, weight: int, value: int) -> int {
    if value > remaining {
        remaining * weight
    } else {
        value * weight
    }
}

/// Centi-gain a cap requirement grants one additional bonus of magnitude
/// `inc` on top of a stat value of `reference`: zero once the cap is
/// exhausted, partial credit for the slice that still fits under it,
/// full credit otherwise.
pub open spec fn cap_gain_inc(remaining: int, weight: int, inc: int, reference: int) -> int {
    if reference > remaining {
        0
    } else if inc + reference > remaining {
        (remaining - reference) * weight
    } else {
        inc * weight
    }
}

/// Centi-gain a weighted requirement grants a stat value: exactly linear,
/// with no upper bound.
pub open spec fn weighted_gain(weight: int, value: int) -> int {
    value * weight
}

/// A hard cap: the stat contributes `weight` per point only while it stays
/// under the remaining headroom `val`. The headroom may become negative
/// after normalization, meaning the cap is already exceeded.
#[derive(Clone, Copy)]
pub struct RequirementCap {
    pub stat: Stat,
    pub val: i64,
    pub weight: u32,
}

impl RequirementCap {
    pub fn new(stat: Stat, val: u32, weight: u32) -> (r: Self)
        ensures
            r.stat == stat,
            r.val == val as i64,
            r.weight == weight,
    {
        Self { stat, val: val as i64, weight }
    }

    pub fn get_stat(&self) -> (s: Stat)
        ensures
            s == self.stat,
    {
        self.stat
    }

    /// The remaining headroom under the cap.
    pub fn get_val(&self) -> (v: i64)
        ensures
            v == self.val,
    {
        self.val
    }

    pub fn get_weight(&self) -> (w: u32)
        ensures
            w == self.weight,
    {
        self.weight
    }

    /// Turn the stored absolute cap target into a remaining headroom by
    /// subtracting the value the character already has. Done exactly once,
    /// at simulation start.
    pub fn make_incremental(&mut self, cur_stats: &CurStats)
        requires
            old(self).val - cur_stats.spec_get(old(self).stat) >= i64::MIN,
        ensures
            final(self).stat == old(self).stat,
            final(self).weight == old(self).weight,
            final(self).val == old(self).val - cur_stats.spec_get(old(self).stat),
    {
        self.val = self.val - (cur_stats.get_stat_val(self.stat) as i64);
    }

    /// Centi-gain of a full profile whose capped stat stands at `new_val`.
    pub fn calculate_gain(&self, new_val: u32) -> (g: i128)
        ensures
            g as int == cap_gain_abs(self.val as int, self.weight as int, new_val as int),
    {
        if (new_val as i64) > self.val {
            let a: i128 = self.val as i128;
            let w: i128 = self.weight as i128;
            proof {
                lemma_mul_i64_u32_fits(a as int, w as int);
            }
            a * w
        } else {
            proof {
                lemma_mul_i64_u32_fits(new_val as int, self.weight as int);
            }
            (new_val as i128) * (self.weight as i128)
        }
    }

    /// Centi-gain of one additional bonus of magnitude `inc` on top of a
    /// stat value of `reference`.
    pub fn calculate_gain_incremental(&self, inc: u32, reference: u32) -> (g: i128)
        ensures
            g as int == cap_gain_inc(self.val as int, self.weight as int, inc as int, reference as int),
    {
        if (reference as i64) > self.val {
            0
        } else if (inc as i64) + (reference as i64) > self.val {
            let a: i128 = (self.val - (reference as i64)) as i128;
            let w: i128 = self.weight as i128;
            proof {
                lemma_mul_i64_u32_fits(a as int, w as int);
            }
            a * w
        } else {
            proof {
                lemma_mul_i64_u32_fits(inc as int, self.weight as int);
            }
            (inc as i128) * (self.weight as i128)
        }
    }
}

/// The product of an `i64`-sized factor and a `u32`-sized factor stays far
/// inside the range of `i128`.
pub(crate) proof fn lemma_mul_i64_u32_fits(a: int, w: int)
    requires
        i64::MIN <= a <= i64::MAX,
        0 <= w <= u32::MAX,
    ensures
        i128::MIN < a * w < i128::MAX,
{
    assert(i128::MIN < a * w < i128::MAX) by (nonlinear_arith)
        requires
            i64::MIN <= a <= i64::MAX,
            0 <= w <= u32::MAX,
    ;
}

/// A linear term: every point of the stat contributes `weight` hundredths
/// of a point of gain, with no cap.
#[derive(Clone, Copy)]
pub struct RequirementWeighted {
    pub stat: Stat,
    pub weight: u32,
}

impl RequirementWeighted {
    pub fn new(stat: Stat, weight: u32) -> (r: Self)
        ensures
            r.stat == stat,
            r.weight == weight,
    {
        Self { stat, weight }
    }

    pub fn get_stat(&self) -> (s: Stat)
        ensures
            s == self.stat,
    {
        self.stat
    }

    pub fn get_weight(&self) -> (w: u32)
        ensures
            w == self.weight,
    {
        self.weight
    }

    /// Centi-gain of a stat value of `new_val`: exactly `new_val * weight`.
    pub fn calculate_gain(&self, new_val: u32) -> (g: i128)
        ensures
            g as int == weighted_gain(self.weight as int, new_val as int),
    {
        proof {
            lemma_mul_i64_u32_fits(new_val as int, self.weight as int);
        }
        (new_val as i128) * (self.weight as i128)
    }
}

/// One entry of the requirement list: either a hard cap or a linear term.
#[derive(Clone, Copy)]
pub enum Requirement {
    RequirementCap(RequirementCap),
    RequirementWeighted(RequirementWeighted),
}

/// Centi-gain contribution of one requirement, read off a full profile.
pub open spec fn req_gain(req: Requirement, stats: CurStats) -> int {
    match req {
        Requirement::RequirementCap(c) => cap_gain_abs(
            c.val as int,
            c.weight as int,
            stats.spec_get(c.stat) as int,
        ),
        Requirement::RequirementWeighted(w) => weighted_gain(
            w.weight as int,
            stats.spec_get(w.stat) as int,
        ),
    }
}

/// Centi-gain of a profile under the first `n` requirements, accumulated
/// left to right with each partial sum clamped to `i128`.
pub open spec fn gain_upto(stats: CurStats, reqs: Seq<Requirement>, n: int) -> int
    decreases n,
{
    if n <= 0 {
        0
    } else {
        sat128(gain_upto(stats, reqs, n - 1) + req_gain(reqs[n - 1], stats))
    }
}

/// Total centi-gain of a profile under a requirement list.
pub open spec fn gain_spec(stats: CurStats, reqs: Seq<Requirement>) -> int {
    gain_upto(stats, reqs, reqs.len() as int)
}

/// Law: for every cap requirement, the incremental gain of adding `inc` on
/// top of `reference` equals the difference of the absolute gains after and
/// before the addition — the two evaluation modes are consistent.
pub proof fn lemma_cap_incremental_consistency(remaining: int, weight: int, inc: int, reference: int)
    requires
        0 <= inc,
        0 <= reference,
        0 <= weight,
    ensures
        cap_gain_inc(remaining, weight, inc, reference)
            == cap_gain_abs(remaining, weight, reference + inc)
                - cap_gain_abs(remaining, weight, reference),
{
    if reference > remaining {
        assert(cap_gain_abs(remaining, weight, reference + inc) == remaining * weight);
        assert(cap_gain_abs(remaining, weight, reference) == remaining * weight);
    } else if inc + reference > remaining {
        assert((remaining - reference) * weight == remaining * weight - reference * weight)
            by (nonlinear_arith);
    } else {
        assert((reference + inc) * weight == reference * weight + inc * weight)
            by (nonlinear_arith);
    }
}

/// Law: the absolute cap gain never decreases as the stat value grows, and
/// for any value at or past the remaining headroom it saturates at
/// `remaining * weight`.
pub proof fn lemma_cap_gain_monotonic(remaining: int, weight: int, v1: int, v2: int)
    requires
        0 <= v1 <= v2,
        0 <= weight,
    ensures
        cap_gain_abs(remaining, weight, v1) <= cap_gain_abs(remaining, weight, v2),
        v1 >= remaining ==> cap_gain_abs(remaining, weight, v1) == remaining * weight,
{
    if v2 > remaining {
        if v1 <= remaining {
            assert(v1 * weight <= remaining * weight) by (nonlinear_arith)
                requires
                    v1 <= remaining,
                    0 <= weight,
            ;
        }
    } else {
        assert(v1 * weight <= v2 * weight) by (nonlinear_arith)
            requires
                v1 <= v2,
                0 <= weight,
        ;
    }
}

/// Law: the weighted gain is exactly linear — scaling the stat value by a
/// non-negative integer factor scales the gain by the same factor.
pub proof fn lemma_weighted_gain_linear(weight: int, v: int, k: int)
    requires
        0 <= v,
        0 <= k,
    ensures
        weighted_gain(weight, k * v) == k * weighted_gain(weight, v),
{
    assert((k * v) * weight == k * (v * weight)) by (nonlinear_arith);
}

} // verus!
