//! Axis bounds derived from a magnitude series.
use vstd::prelude::*;

use crate::PlotError;
use crate::UNIT;

verus! {

/// Multiplier from the smallest impedance sample to the top of the impedance axis.
pub const IMPEDANCE_SPAN: i64 = 10_000;

/// The lower and upper limit of a chart axis, in millionths of its unit.
#[derive(Clone, Copy, Debug, PartialEq, Eq, Structural)]
pub struct AxisBounds {
    pub min: i128,
    pub max: i128,
}

/// The smallest element of a non-empty series.
pub open spec fn seq_min(s: Seq<i64>) -> int
    decreases s.len(),
{
    if s.len() <= 1 {
        s[0] as int
    } else if s.last() < seq_min(s.drop_last()) {
        s.last() as int
    } else {
        seq_min(s.drop_last())
    }
}

/// The largest element of a non-empty series.
pub open spec fn seq_max(s: Seq<i64>) -> int
    decreases s.len(),
{
    if s.len() <= 1 {
        s[0] as int
    } else if s.last() > seq_max(s.drop_last()) {
        s.last() as int
    } else {
        seq_max(s.drop_last())
    }
}

/// `x` millionths rounded down to a whole unit.
pub open spec fn floor_unit(x: int) -> int {
    x / (UNIT as int)
}

/// `x` millionths rounded up to a whole unit.
pub open spec fn ceil_unit(x: int) -> int {
    -((-x) / (UNIT as int))
}

/// The smallest and largest element bound every element, and are elements.
pub proof fn lemma_extent(s: Seq<i64>)
    requires
        s.len() > 0,
    ensures
        forall|i: int| 0 <= i < s.len() ==> seq_min(s) <= #[trigger] s[i] <= seq_max(s),
        exists|i: int| 0 <= i < s.len() && s[i] == seq_min(s),
        exists|i: int| 0 <= i < s.len() && s[i] == seq_max(s),
    decreases s.len(),
{
    if s.len() > 1 {
        let t = s.drop_last();
        lemma_extent(t);
        assert forall|i: int| 0 <= i < s.len() implies seq_min(s) <= #[trigger] s[i] <= seq_max(s) by {
            if i < s.len() - 1 {
                assert(s[i] == t[i]);
            }
        }
        let a = choose|i: int| 0 <= i < t.len() && t[i] == seq_min(t);
        let b = choose|i: int| 0 <= i < t.len() && t[i] == seq_max(t);
        assert(s[a] == t[a] && s[b] == t[b]);
        let n = s.len() - 1;
        assert(s[n] == s.last());
        if s.last() < seq_min(t) {
            assert(s[n] == seq_min(s));
        } else {
            assert(s[a] == seq_min(s));
        }
        if s.last() > seq_max(t) {
            assert(s[n] == seq_max(s));
        } else {
            assert(s[b] == seq_max(s));
        }
    } else {
        assert(s[0] == seq_min(s) && s[0] == seq_max(s));
    }
}

/// The smallest and largest sample of a non-empty series.
fn series_extent(s: &Vec<i64>) -> (r: (i64, i64))
    requires
        s@.len() > 0,
    ensures
        r.0 == seq_min(s@),
        r.1 == seq_max(s@),
{
    let mut lo: i64 = s[0];
    let mut hi: i64 = s[0];
    let mut i: usize = 1;
    while i < s.len()
        invariant
            1 <= i <= s@.len(),
            lo == seq_min(s@.take(i as int)),
            hi == seq_max(s@.take(i as int)),
        decreases s@.len() - i,
    {
        assert(s@.take(i as int + 1).drop_last() == s@.take(i as int));
        if s[i] < lo {
            lo = s[i];
        }
        if s[i] > hi {
            hi = s[i];
        }
        i = i + 1;
    }
    assert(s@.take(s@.len() as int) == s@);
    (lo, hi)
}

/// Rounding down to a whole unit stays at or below `x`, rounding up at or above it.
pub proof fn lemma_floor_below(x: int)
    ensures
        floor_unit(x) * UNIT <= x < (floor_unit(x) + 1) * UNIT,
        x <= ceil_unit(x) * UNIT < x + UNIT,
{
    let u = UNIT as int;
    let q = x / u;
    let q2 = (-x) / u;
    vstd::arithmetic::div_mod::lemma_fundamental_div_mod(x, u);
    vstd::arithmetic::div_mod::lemma_fundamental_div_mod(-x, u);
    assert(floor_unit(x) == q && ceil_unit(x) == -q2);
    assert(q * u == u * q) by (nonlinear_arith);
    assert((q + 1) * u == u * q + u) by (nonlinear_arith);
    assert((-q2) * u == -(u * q2)) by (nonlinear_arith);
}

/// Bounds of a decibel axis: the smallest sample rounded down to a whole
/// decibel less one, the largest rounded up to a whole decibel plus one.
/// `None` when there are no samples.
pub fn decibel_bounds(mags: &Vec<i64>) -> (r: Option<AxisBounds>)
    ensures
        r is None <==> mags@.len() == 0,
        r is Some ==> r->Some_0.min == (floor_unit(seq_min(mags@)) - 1) * UNIT,
        r is Some ==> r->Some_0.max == (ceil_unit(seq_max(mags@)) + 1) * UNIT,
        r is Some ==> forall|i: int|
            0 <= i < mags@.len() ==> r->Some_0.min + UNIT <= #[trigger] mags@[i] <= r->Some_0.max - UNIT,
{
    if mags.len() == 0 {
        return None;
    }
    let (lo, hi) = series_extent(mags);
    proof {
        lemma_extent(mags@);
        lemma_floor_below(lo as int);
        lemma_floor_below(hi as int);
    }
    let down: i128 = match (lo as i128).checked_div_euclid(UNIT as i128) {
        Some(q) => q,
        None => 0,
    };
    let up_neg: i128 = match (-(hi as i128)).checked_div_euclid(UNIT as i128) {
        Some(q) => q,
        None => 0,
    };
    proof {
        assert(down == floor_unit(lo as int));
        assert(-up_neg == ceil_unit(hi as int));
        vstd::arithmetic::div_mod::lemma_div_is_ordered(i64::MIN as int, lo as int, UNIT as int);
        vstd::arithmetic::div_mod::lemma_div_is_ordered(lo as int, i64::MAX as int, UNIT as int);
        vstd::arithmetic::div_mod::lemma_div_is_ordered(i64::MIN as int, -(hi as int), UNIT as int);
        vstd::arithmetic::div_mod::lemma_div_is_ordered(-(hi as int), i64::MAX as int + 1, UNIT as int);
    }
    Some(AxisBounds { min: (down - 1) * (UNIT as i128), max: (1 - up_neg) * (UNIT as i128) })
}

/// Bounds of a logarithmic impedance axis: from zero up to the smallest
/// sample times `IMPEDANCE_SPAN`. Fails with `RenderFailed` when there are no
/// samples or the smallest is zero (an axis of zero height), and with
/// `EvaluationFailed` when a sample is negative (no modulus is).
pub fn impedance_bounds(mags: &Vec<i64>) -> (r: Result<AxisBounds, PlotError>)
    ensures
        mags@.len() == 0 ==> r == Err::<AxisBounds, PlotError>(PlotError::RenderFailed),
        mags@.len() > 0 && seq_min(mags@) < 0 ==> r == Err::<AxisBounds, PlotError>(PlotError::EvaluationFailed),
        mags@.len() > 0 && seq_min(mags@) == 0 ==> r == Err::<AxisBounds, PlotError>(PlotError::RenderFailed),
        mags@.len() > 0 && seq_min(mags@) > 0 ==> r == Ok::<AxisBounds, PlotError>(
            AxisBounds { min: 0, max: (seq_min(mags@) * IMPEDANCE_SPAN) as i128 },
        ),
        r is Ok ==> forall|i: int| 0 <= i < mags@.len() ==> 0 <= mags@[i],
{
    if mags.len() == 0 {
        return Err(PlotError::RenderFailed);
    }
    let (lo, _hi) = series_extent(mags);
    proof {
        lemma_extent(mags@);
    }
    if lo < 0 {
        return Err(PlotError::EvaluationFailed);
    }
    if lo == 0 {
        return Err(PlotError::RenderFailed);
    }
    Ok(AxisBounds { min: 0, max: (lo as i128) * (IMPEDANCE_SPAN as i128) })
}

/// Bounds of the phase axis, whatever the data: -180 to 180 degrees.
pub fn phase_bounds() -> (r: AxisBounds)
    ensures
        r.min == -180 * UNIT,
        r.max == 180 * UNIT,
{
    AxisBounds { min: -180 * (UNIT as i128), max: 180 * (UNIT as i128) }
}

} // verus!
