//! What a response chart draws: axes, the style of the magnitude series,
//! the phase series, and where the magnitude crosses a target.
use vstd::prelude::*;

use crate::bounds::ceil_unit;
use crate::bounds::decibel_bounds;
use crate::bounds::floor_unit;
use crate::bounds::impedance_bounds;
use crate::bounds::lemma_extent;
use crate::bounds::lemma_floor_below;
use crate::bounds::phase_bounds;
use crate::bounds::seq_max;
use crate::bounds::seq_min;
use crate::bounds::AxisBounds;
use crate::bounds::IMPEDANCE_SPAN;
use crate::PlotError;
use crate::UNIT;

verus! {

/// A full turn, in micro-degrees.
pub const TURN: i64 = 360_000_000;

/// Half a turn, in micro-degrees.
pub const HALF_TURN: i64 = 180_000_000;

/// How the magnitude of a response is shown.
#[derive(Clone, Copy, Debug, PartialEq, Eq, Structural)]
pub enum MagnitudeKind {
    /// The modulus itself, on a logarithmic axis (an impedance).
    Linear,
    /// Twenty times the decimal logarithm of the modulus, on a linear axis.
    Decibel,
}

/// How the magnitude series is drawn.
#[derive(Clone, Copy, Debug, PartialEq, Eq, Structural)]
pub enum RenderMode {
    /// A line.
    Plain,
    /// An area filled against the given target, in millionths of the magnitude unit.
    Thresholded(i64),
}

/// The drawing style chosen for the magnitude series.
#[derive(Clone, Copy, Debug, PartialEq, Eq, Structural)]
pub enum SeriesStyle {
    /// A connected line.
    Line,
    /// A filled area whose baseline is the given value.
    Area(i64),
}

/// Everything a chart needs besides the samples themselves.
#[derive(Debug)]
pub struct PlotPlan {
    /// Bounds of the primary (magnitude) axis.
    pub magnitude_axis: AxisBounds,
    /// Whether the primary axis is logarithmic.
    pub log_scale: bool,
    /// Bounds of the secondary (phase) axis.
    pub phase_axis: AxisBounds,
    /// How the magnitude series is drawn.
    pub magnitude_style: SeriesStyle,
    /// The phase series, each sample in (-180, 180] degrees.
    pub phase: Vec<i64>,
    /// The sample indices at which the magnitude crosses the target.
    pub crossings: Vec<usize>,
}

/// A phase angle moved by whole turns into (-180, 180] degrees.
pub open spec fn wrapped_phase(p: int) -> int {
    let m = p % (TURN as int);
    if m > HALF_TURN {
        m - TURN
    } else {
        m
    }
}

/// Wraps a phase angle in micro-degrees into (-180, 180] degrees.
pub fn wrap_phase(p: i64) -> (r: i64)
    ensures
        r == wrapped_phase(p as int),
        -HALF_TURN < r <= HALF_TURN,
{
    let m: i64 = match p.checked_rem_euclid(TURN) {
        Some(m) => m,
        None => 0,
    };
    if m > HALF_TURN {
        m - TURN
    } else {
        m
    }
}

/// Whether sample `i` lies above the target.
pub open spec fn above(m: Seq<i64>, target: i64, i: int) -> bool {
    m[i] > target
}

/// The indices below `n`, in increasing order, whose sample lies on the
/// other side of the target than the sample before it.
pub open spec fn crossings_upto(m: Seq<i64>, target: i64, n: int) -> Seq<usize>
    decreases n,
{
    if n <= 1 {
        Seq::empty()
    } else if above(m, target, n - 1) != above(m, target, n - 2) {
        crossings_upto(m, target, n - 1).push((n - 1) as usize)
    } else {
        crossings_upto(m, target, n - 1)
    }
}

/// The indices at which a magnitude series crosses `target`: each index `k`
/// whose sample lies above the target while sample `k - 1` does not, or the
/// other way round.
pub fn threshold_crossings(m: &Vec<i64>, target: i64) -> (r: Vec<usize>)
    ensures
        r@ == crossings_upto(m@, target, m@.len() as int),
{
    let mut out: Vec<usize> = Vec::new();
    let mut i: usize = 1;
    if m.len() == 0 {
        return out;
    }
    while i < m.len()
        invariant
            1 <= i <= m@.len(),
            out@ == crossings_upto(m@, target, i as int),
        decreases m@.len() - i,
    {
        if (m[i] > target) != (m[i - 1] > target) {
            out.push(i);
        }
        i = i + 1;
    }
    out
}

/// A boundary of the highlighted area stands at index `k` exactly when the
/// magnitude passes from one side of the target to the other between
/// samples `k - 1` and `k`; the boundaries come in increasing order.
pub proof fn lemma_crossing_at(m: Seq<i64>, target: i64, n: int)
    requires
        0 <= n <= m.len(),
        m.len() <= usize::MAX,
    ensures
        forall|k: int|
            0 < k < n ==> (crossings_upto(m, target, n).contains(k as usize) <==> #[trigger] above(m, target, k)
                != above(m, target, k - 1)),
        forall|a: int, b: int|
            0 <= a < b < crossings_upto(m, target, n).len() ==> crossings_upto(m, target, n)[a]
                < crossings_upto(m, target, n)[b],
        forall|a: int|
            0 <= a < crossings_upto(m, target, n).len() ==> 1 <= #[trigger] crossings_upto(m, target, n)[a] < n,
    decreases n,
{
    if n > 1 {
        lemma_crossing_at(m, target, n - 1);
        let c = crossings_upto(m, target, n - 1);
        let d = crossings_upto(m, target, n);
        assert forall|k: int|
            0 < k < n implies (d.contains(k as usize) <==> #[trigger] above(m, target, k) != above(m, target, k - 1)) by {
            if k < n - 1 {
                if d.contains(k as usize) {
                    let j = choose|j: int| 0 <= j < d.len() && d[j] == k as usize;
                    if j < c.len() {
                        assert(c[j] == d[j]);
                    }
                }
                if c.contains(k as usize) {
                    let j = choose|j: int| 0 <= j < c.len() && c[j] == k as usize;
                    assert(d[j] == c[j]);
                }
            } else {
                if above(m, target, n - 1) != above(m, target, n - 2) {
                    assert(d[d.len() - 1] == (n - 1) as usize);
                } else {
                    if d.contains(k as usize) {
                        let j = choose|j: int| 0 <= j < d.len() && d[j] == k as usize;
                        assert(c[j] < n - 1);
                    }
                }
            }
        }
    }
}

/// The phase series `w` is `p` with every sample wrapped into (-180, 180] degrees.
pub open spec fn phase_fits(w: Seq<i64>, p: Seq<i64>) -> bool {
    w.len() == p.len() && forall|i: int| 0 <= i < p.len() ==> w[i] == wrapped_phase(p[i] as int)
}

/// Why a magnitude series cannot be charted as `kind`, if it cannot.
pub open spec fn magnitude_failure(m: Seq<i64>, kind: MagnitudeKind) -> Option<PlotError> {
    if m.len() == 0 {
        Some(PlotError::RenderFailed)
    } else {
        match kind {
            MagnitudeKind::Decibel => None,
            MagnitudeKind::Linear => if seq_min(m) < 0 {
                Some(PlotError::EvaluationFailed)
            } else if seq_min(m) == 0 {
                Some(PlotError::RenderFailed)
            } else {
                None
            },
        }
    }
}

/// `b` are the primary-axis bounds of `m` shown as `kind`.
pub open spec fn axis_fits(b: AxisBounds, m: Seq<i64>, kind: MagnitudeKind) -> bool {
    match kind {
        MagnitudeKind::Decibel => b.min == (floor_unit(seq_min(m)) - 1) * UNIT && b.max == (
        ceil_unit(seq_max(m)) + 1) * UNIT,
        MagnitudeKind::Linear => b.min == 0 && b.max == seq_min(m) * IMPEDANCE_SPAN,
    }
}

/// The style in which `mode` draws the magnitude series.
pub open spec fn style_of(mode: RenderMode) -> SeriesStyle {
    match mode {
        RenderMode::Plain => SeriesStyle::Line,
        RenderMode::Thresholded(t) => SeriesStyle::Area(t),
    }
}

/// The crossings that `mode` marks on `m`: none for a plain line.
pub open spec fn crossings_of(m: Seq<i64>, mode: RenderMode) -> Seq<usize> {
    match mode {
        RenderMode::Plain => Seq::empty(),
        RenderMode::Thresholded(t) => crossings_upto(m, t, m.len() as int),
    }
}

/// `plan` is the chart of magnitudes `m` and phases `p`, shown as `kind`
/// and drawn in `mode`.
pub open spec fn built_from(
    plan: PlotPlan,
    m: Seq<i64>,
    p: Seq<i64>,
    kind: MagnitudeKind,
    mode: RenderMode,
) -> bool {
    &&& axis_fits(plan.magnitude_axis, m, kind)
    &&& plan.log_scale == (kind == MagnitudeKind::Linear)
    &&& plan.phase_axis.min == -180 * UNIT
    &&& plan.phase_axis.max == 180 * UNIT
    &&& plan.magnitude_style == style_of(mode)
    &&& phase_fits(plan.phase@, p)
    &&& plan.crossings@ == crossings_of(m, mode)
}

/// Plans the chart of a response: magnitudes `m` and phases `p`, index
/// aligned with the frequency sweep, the magnitudes shown as `kind` and
/// drawn in `mode`.
pub fn build_plan(m: &Vec<i64>, p: &Vec<i64>, kind: MagnitudeKind, mode: RenderMode) -> (r: Result<
    PlotPlan,
    PlotError,
>)
    requires
        m@.len() == p@.len(),
    ensures
        match r {
            Ok(plan) => magnitude_failure(m@, kind) is None && built_from(plan, m@, p@, kind, mode),
            Err(e) => magnitude_failure(m@, kind) == Some(e),
        },
{
    let magnitude_axis = match kind {
        MagnitudeKind::Decibel => match decibel_bounds(m) {
            Some(b) => b,
            None => return Err(PlotError::RenderFailed),
        },
        MagnitudeKind::Linear => match impedance_bounds(m) {
            Ok(b) => b,
            Err(e) => return Err(e),
        },
    };
    let mut phase: Vec<i64> = Vec::new();
    let mut i: usize = 0;
    while i < p.len()
        invariant
            i <= p@.len(),
            phase@.len() == i,
            forall|j: int| 0 <= j < i ==> phase@[j] == wrapped_phase(p@[j] as int),
        decreases p@.len() - i,
    {
        phase.push(wrap_phase(p[i]));
        i = i + 1;
    }
    let (magnitude_style, crossings) = match mode {
        RenderMode::Plain => (SeriesStyle::Line, Vec::new()),
        RenderMode::Thresholded(t) => (SeriesStyle::Area(t), threshold_crossings(m, t)),
    };
    Ok(
        PlotPlan {
            magnitude_axis,
            log_scale: match kind {
                MagnitudeKind::Linear => true,
                MagnitudeKind::Decibel => false,
            },
            phase_axis: phase_bounds(),
            magnitude_style,
            phase,
            crossings,
        },
    )
}

/// On every chart that can be built, each phase sample lies in
/// (-180, 180] degrees, each impedance sample is positive, and each decibel
/// sample lies at least one decibel inside the magnitude axis.
pub proof fn lemma_plan_ranges(
    plan: PlotPlan,
    m: Seq<i64>,
    p: Seq<i64>,
    kind: MagnitudeKind,
    mode: RenderMode,
)
    requires
        magnitude_failure(m, kind) is None,
        built_from(plan, m, p, kind, mode),
    ensures
        forall|i: int| 0 <= i < plan.phase@.len() ==> -HALF_TURN < #[trigger] plan.phase@[i] <= HALF_TURN,
        kind == MagnitudeKind::Linear ==> forall|i: int| 0 <= i < m.len() ==> #[trigger] m[i] > 0,
        kind == MagnitudeKind::Decibel ==> forall|i: int|
            0 <= i < m.len() ==> plan.magnitude_axis.min + UNIT <= #[trigger] m[i]
                <= plan.magnitude_axis.max - UNIT,
{
    lemma_extent(m);
    lemma_floor_below(seq_min(m));
    lemma_floor_below(seq_max(m));
    assert forall|i: int| 0 <= i < plan.phase@.len() implies -HALF_TURN < #[trigger] plan.phase@[i]
        <= HALF_TURN by {
        let x = p[i] as int;
        assert(0 <= x % (TURN as int) < TURN);
    }
}

/// A plain chart and a thresholded chart of the same data share both axes
/// and the phase series, and differ in the style of the magnitude series.
pub proof fn lemma_modes_share_phase(
    line: PlotPlan,
    area: PlotPlan,
    m: Seq<i64>,
    p: Seq<i64>,
    kind: MagnitudeKind,
    target: i64,
)
    requires
        built_from(line, m, p, kind, RenderMode::Plain),
        built_from(area, m, p, kind, RenderMode::Thresholded(target)),
    ensures
        line.phase@ == area.phase@,
        line.phase_axis == area.phase_axis,
        line.magnitude_axis == area.magnitude_axis,
        line.log_scale == area.log_scale,
        line.magnitude_style == SeriesStyle::Line,
        area.magnitude_style == SeriesStyle::Area(target),
{
    assert(line.phase@ =~= area.phase@);
}

/// Two charts built from the same samples, kind and mode are the same chart.
pub proof fn lemma_plan_deterministic(
    a: PlotPlan,
    b: PlotPlan,
    m: Seq<i64>,
    p: Seq<i64>,
    kind: MagnitudeKind,
    mode: RenderMode,
)
    requires
        built_from(a, m, p, kind, mode),
        built_from(b, m, p, kind, mode),
    ensures
        a.magnitude_axis == b.magnitude_axis,
        a.log_scale == b.log_scale,
        a.phase_axis == b.phase_axis,
        a.magnitude_style == b.magnitude_style,
        a.phase@ == b.phase@,
        a.crossings@ == b.crossings@,
{
    assert(a.phase@ =~= b.phase@);
}

} // verus!
