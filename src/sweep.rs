//! Log-spaced frequency sweeps.
use vstd::prelude::*;

use crate::PlotError;
use crate::UNIT;
use vstd::arithmetic::power::pow;

verus! {

/// The sample that follows `f` when each step multiplies by `step` millionths.
pub open spec fn next_sample(f: int, step: int) -> int {
    f * step / (UNIT as int)
}

/// A sweep can be generated: the range is non-empty, and the first step
/// from `low` advances by at least one micro-hertz.
pub open spec fn sweep_accepts(low: u64, high: u64, step: u64) -> bool {
    0 < low < high && next_sample(low as int, step as int) > low
}

/// `s` is the sweep from `low` to `high`: it starts at `low`, each sample
/// follows the one before it, every sample is at most `high`, and the sample
/// after the last would exceed `high`.
pub open spec fn is_sweep(s: Seq<u64>, low: u64, high: u64, step: u64) -> bool {
    &&& s.len() > 0
    &&& s[0] == low
    &&& forall|i: int| 0 <= i < s.len() - 1 ==> s[i + 1] == next_sample(s[i] as int, step as int)
    &&& forall|i: int| 0 <= i < s.len() ==> s[i] <= high
    &&& next_sample(s.last() as int, step as int) > high
}

/// Once a step advances from `low`, it advances from every larger sample.
proof fn lemma_step_advances(low: int, f: int, step: int)
    requires
        0 < low <= f,
        next_sample(low, step) > low,
    ensures
        next_sample(f, step) > f,
        step > UNIT,
{
    let u = UNIT as int;
    assert(low * step >= (low + 1) * u) by {
        vstd::arithmetic::div_mod::lemma_fundamental_div_mod(low * step, u);
        assert(low * step == u * (low * step / u) + (low * step) % u);
        assert(low * step / u >= low + 1);
        assert(u * (low * step / u) >= u * (low + 1)) by (nonlinear_arith)
            requires low * step / u >= low + 1, u > 0;
    }
    assert(step > u) by (nonlinear_arith)
        requires low * step >= (low + 1) * u, low > 0, u > 0;
    assert(f * step >= (f + 1) * u) by (nonlinear_arith)
        requires f >= low, low * step >= (low + 1) * u, step > u, low > 0, u > 0;
    vstd::arithmetic::div_mod::lemma_div_is_ordered((f + 1) * u, f * step, u);
    vstd::arithmetic::div_mod::lemma_div_multiples_vanish(f + 1, u);
    assert((f + 1) * u == u * (f + 1)) by (nonlinear_arith);
}

/// Rounding down keeps a sample at or below the exact geometric value: when
/// `cur` is at most `low * (step / UNIT)^k`, the sample after it is at most
/// `low * (step / UNIT)^(k + 1)`, and when that sample exceeds `high`, so
/// does the exact value.
proof fn lemma_exact_bound(low: int, cur: int, high: int, step: int, k: nat)
    requires
        0 < cur,
        0 < step,
        cur * pow(UNIT as int, k) <= low * pow(step, k),
    ensures
        next_sample(cur, step) * pow(UNIT as int, k + 1) <= low * pow(step, k + 1),
        next_sample(cur, step) > high ==> high * pow(UNIT as int, k + 1) < low * pow(step, k + 1),
{
    let u = UNIT as int;
    let n = next_sample(cur, step);
    let pu = pow(u, k);
    let ps = pow(step, k);
    vstd::arithmetic::power::lemma_pow_adds(u, k, 1);
    vstd::arithmetic::power::lemma_pow_adds(step, k, 1);
    vstd::arithmetic::power::lemma_pow1(u);
    vstd::arithmetic::power::lemma_pow1(step);
    vstd::arithmetic::power::lemma_pow_positive(u, k);
    vstd::arithmetic::div_mod::lemma_fundamental_div_mod(cur * step, u);
    assert(n * u <= cur * step) by (nonlinear_arith)
        requires
            n == (cur * step) / u,
            cur * step == u * ((cur * step) / u) + (cur * step) % u,
            (cur * step) % u >= 0,
    ;
    assert(n * (pu * u) <= low * (ps * step)) by (nonlinear_arith)
        requires n * u <= cur * step, cur * pu <= low * ps, pu > 0, step > 0;
    if n > high {
        assert(high * (pu * u) < low * (ps * step)) by (nonlinear_arith)
            requires n * u <= cur * step, cur * pu <= low * ps, pu > 0, step > 0, n > high, u > 0;
    }
}

proof fn lemma_product_fits(a: u64, b: u64)
    ensures
        (a as int) * (b as int) <= u128::MAX,
{
    assert((a as int) * (b as int) <= (u64::MAX as int) * (u64::MAX as int)) by (nonlinear_arith)
        requires 0 <= a <= u64::MAX, 0 <= b <= u64::MAX;
}

/// Generates the log-spaced sweep from `low` to `high` micro-hertz, each
/// sample `step` millionths of the one before it (rounded down). `high` is
/// included when a step lands on it exactly. For a sweep of `points_per_decade`
/// samples per multiplication by `ratio`, `step` is `ratio^(1/points_per_decade)`
/// in millionths.
///
/// The range is rejected unless `0 < low < high` and the first step advances.
/// The samples strictly increase, and since rounding down only slows the
/// sweep, there are at least as many as the exact multiplier would need to
/// pass `high`: `high * UNIT^n < low * step^n` for the length `n`.
pub fn generate(low: u64, high: u64, step: u64) -> (r: Result<Vec<u64>, PlotError>)
    ensures
        match r {
            Ok(s) => sweep_accepts(low, high, step) && is_sweep(s@, low, high, step),
            Err(e) => !sweep_accepts(low, high, step) && e == PlotError::InvalidRange,
        },
        r is Ok ==> forall|i: int, j: int|
            0 <= i < j < r->Ok_0@.len() ==> r->Ok_0@[i] < r->Ok_0@[j],
        r is Ok ==> high * pow(UNIT as int, r->Ok_0@.len()) < low * pow(step as int, r->Ok_0@.len()),
{
    proof {
        lemma_product_fits(low, step);
    }
    let first: u128 = (low as u128) * (step as u128) / (UNIT as u128);
    if low == 0 || low >= high || first <= low as u128 {
        return Err(PlotError::InvalidRange);
    }
    let mut out: Vec<u64> = Vec::new();
    let mut cur: u64 = low;
    out.push(cur);
    proof {
        vstd::arithmetic::power::lemma_pow0(UNIT as int);
        vstd::arithmetic::power::lemma_pow0(step as int);
    }
    loop
        invariant
            sweep_accepts(low, high, step),
            low <= cur <= high,
            out@.len() > 0,
            out@[0] == low,
            out@.last() == cur,
            forall|i: int| 0 <= i < out@.len() - 1 ==> out@[i + 1] == next_sample(out@[i] as int, step as int),
            forall|i: int| 0 <= i < out@.len() ==> out@[i] <= cur,
            forall|i: int, j: int| 0 <= i < j < out@.len() ==> out@[i] < out@[j],
            cur * pow(UNIT as int, (out@.len() - 1) as nat) <= low * pow(step as int, (out@.len() - 1) as nat),
        decreases high - cur,
    {
        proof {
            lemma_product_fits(cur, step);
        }
        let next: u128 = (cur as u128) * (step as u128) / (UNIT as u128);
        proof {
            lemma_step_advances(low as int, cur as int, step as int);
            lemma_exact_bound(low as int, cur as int, high as int, step as int, (out@.len() - 1) as nat);
        }
        if next > high as u128 {
            return Ok(out);
        }
        cur = next as u64;
        out.push(cur);
    }
}

} // verus!
