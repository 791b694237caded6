use sdomain_test_plotters::bounds::decibel_bounds;
use sdomain_test_plotters::bounds::impedance_bounds;
use sdomain_test_plotters::bounds::phase_bounds;
use sdomain_test_plotters::bounds::AxisBounds;
use sdomain_test_plotters::plan::build_plan;
use sdomain_test_plotters::plan::threshold_crossings;
use sdomain_test_plotters::plan::wrap_phase;
use sdomain_test_plotters::plan::MagnitudeKind;
use sdomain_test_plotters::plan::RenderMode;
use sdomain_test_plotters::plan::SeriesStyle;
use sdomain_test_plotters::sweep::generate;
use sdomain_test_plotters::PlotError;
use sdomain_test_plotters::UNIT;

const HZ: u64 = 1_000_000;
const DECADE_IN_100: u64 = 1_023_293;

#[test]
fn one_point_per_decade_includes_exact_endpoint() {
    assert_eq!(generate(HZ, 10 * HZ, 10 * HZ), Ok(vec![HZ, 10 * HZ]));
}

#[test]
fn endpoint_between_steps_is_left_out() {
    assert_eq!(generate(HZ, 9 * HZ, 10 * HZ), Ok(vec![HZ]));
    assert_eq!(generate(HZ, 150 * HZ, 10 * HZ), Ok(vec![HZ, 10 * HZ, 100 * HZ]));
}

#[test]
fn bode_sweep_is_increasing_and_bounded() {
    let high = 10_000_000 * HZ;
    let s = generate(HZ, high, DECADE_IN_100).unwrap();
    assert_eq!(s[0], HZ);
    assert_eq!(s[1], 1_023_293);
    assert!(s.windows(2).all(|w| w[0] < w[1]));
    assert!(s.iter().all(|f| *f <= high));
    assert!(s.len() >= 699 && s.len() <= 701);
    let last = *s.last().unwrap() as u128;
    assert!(last * DECADE_IN_100 as u128 / UNIT as u128 > high as u128);
}

#[test]
fn impedance_sweep_length() {
    let s = generate(HZ, 100_000_000 * HZ, DECADE_IN_100).unwrap();
    assert!(s.len() >= 799 && s.len() <= 801);
}

#[test]
fn invalid_ranges_are_rejected() {
    assert_eq!(generate(0, 10 * HZ, 10 * HZ), Err(PlotError::InvalidRange));
    assert_eq!(generate(10 * HZ, HZ, 10 * HZ), Err(PlotError::InvalidRange));
    assert_eq!(generate(HZ, HZ, 10 * HZ), Err(PlotError::InvalidRange));
    assert_eq!(generate(HZ, 10 * HZ, HZ), Err(PlotError::InvalidRange));
    assert_eq!(generate(HZ, 10 * HZ, HZ / 2), Err(PlotError::InvalidRange));
    assert_eq!(generate(1, 10 * HZ, DECADE_IN_100), Err(PlotError::InvalidRange));
}

#[test]
fn decibel_bounds_round_out_and_pad() {
    let mags = vec![-3_500_000, 2_200_000, 0, -1_000_000];
    let b = decibel_bounds(&mags).unwrap();
    assert_eq!(b, AxisBounds { min: -5_000_000, max: 4_000_000 });
    for m in mags {
        assert!(b.min + (UNIT as i128) <= m as i128 && m as i128 <= b.max - (UNIT as i128));
    }
}

#[test]
fn decibel_bounds_of_whole_decibels() {
    let b = decibel_bounds(&vec![2_000_000, -40_000_000]).unwrap();
    assert_eq!(b, AxisBounds { min: -41_000_000, max: 3_000_000 });
}

#[test]
fn decibel_bounds_of_constant_series_are_not_degenerate() {
    let b = decibel_bounds(&vec![0, 0, 0]).unwrap();
    assert_eq!(b, AxisBounds { min: -1_000_000, max: 1_000_000 });
}

#[test]
fn decibel_bounds_of_nothing() {
    assert_eq!(decibel_bounds(&vec![]), None);
}

#[test]
fn decibel_bounds_at_the_extremes() {
    let b = decibel_bounds(&vec![i64::MIN, i64::MAX]).unwrap();
    assert_eq!(b.min, (i64::MIN as i128).div_euclid(1_000_000) * 1_000_000 - 1_000_000);
    assert!(b.max >= i64::MAX as i128 + 1_000_000);
}

#[test]
fn impedance_axis_spans_from_smallest_sample() {
    let b = impedance_bounds(&vec![5_000_000, 2_000_000, 3_000_000]).unwrap();
    assert_eq!(b, AxisBounds { min: 0, max: 20_000_000_000 });
}

#[test]
fn impedance_errors() {
    assert_eq!(impedance_bounds(&vec![]), Err(PlotError::RenderFailed));
    assert_eq!(impedance_bounds(&vec![3, 0, 4]), Err(PlotError::RenderFailed));
    assert_eq!(impedance_bounds(&vec![3, -1, 0]), Err(PlotError::EvaluationFailed));
}

#[test]
fn phase_axis_is_fixed() {
    assert_eq!(phase_bounds(), AxisBounds { min: -180_000_000, max: 180_000_000 });
}

#[test]
fn phase_wraps_into_half_open_range() {
    assert_eq!(wrap_phase(-180_000_000), 180_000_000);
    assert_eq!(wrap_phase(180_000_000), 180_000_000);
    assert_eq!(wrap_phase(540_000_000), 180_000_000);
    assert_eq!(wrap_phase(190_000_000), -170_000_000);
    assert_eq!(wrap_phase(-190_000_000), 170_000_000);
    assert_eq!(wrap_phase(53_130_102), 53_130_102);
    assert_eq!(wrap_phase(0), 0);
    let w = wrap_phase(i64::MIN);
    assert!(-180_000_000 < w && w <= 180_000_000);
}

#[test]
fn crossings_of_a_target() {
    let m = vec![50_000, 80_000, 120_000, 200_000, 90_000, 100_000, 100_001];
    assert_eq!(threshold_crossings(&m, 100_000), vec![2, 4, 6]);
    assert_eq!(threshold_crossings(&vec![], 100_000), Vec::<usize>::new());
    assert_eq!(threshold_crossings(&vec![200_000], 100_000), Vec::<usize>::new());
}

#[test]
fn thresholded_area_boundary_at_crossing() {
    let m = vec![20_000, 40_000, 70_000, 99_000, 130_000, 160_000];
    let p = vec![0; 6];
    let plan = build_plan(&m, &p, MagnitudeKind::Linear, RenderMode::Thresholded(100_000)).unwrap();
    assert_eq!(plan.magnitude_style, SeriesStyle::Area(100_000));
    assert_eq!(plan.crossings, vec![4]);
}

#[test]
fn constant_response_gives_constant_series() {
    let n = 701;
    let m = vec![5_000_000; n];
    let p = vec![53_130_102; n];
    let plan = build_plan(&m, &p, MagnitudeKind::Linear, RenderMode::Plain).unwrap();
    assert!(plan.phase.iter().all(|x| *x == 53_130_102));
    assert_eq!(plan.magnitude_axis, AxisBounds { min: 0, max: 50_000_000_000 });
    assert!(plan.log_scale);
    assert_eq!(plan.magnitude_style, SeriesStyle::Line);
    assert!(plan.crossings.is_empty());
}

#[test]
fn modes_share_phase_and_axes() {
    let m = vec![3_000_000, -2_500_000, 10_100_000];
    let p = vec![-180_000_000, 45_000_000, 200_000_000];
    let line = build_plan(&m, &p, MagnitudeKind::Decibel, RenderMode::Plain).unwrap();
    let area = build_plan(&m, &p, MagnitudeKind::Decibel, RenderMode::Thresholded(0)).unwrap();
    assert_eq!(line.phase, vec![180_000_000, 45_000_000, -160_000_000]);
    assert_eq!(line.phase, area.phase);
    assert_eq!(line.phase_axis, area.phase_axis);
    assert_eq!(line.magnitude_axis, AxisBounds { min: -4_000_000, max: 12_000_000 });
    assert_eq!(line.magnitude_axis, area.magnitude_axis);
    assert!(!line.log_scale);
    assert_eq!(line.magnitude_style, SeriesStyle::Line);
    assert_eq!(area.magnitude_style, SeriesStyle::Area(0));
    assert_ne!(line.magnitude_style, area.magnitude_style);
    assert_eq!(area.crossings, vec![1, 2]);
}

#[test]
fn building_twice_gives_the_same_plan() {
    let m = vec![120_000, 80_000, 95_000, 101_000];
    let p = vec![10_000_000, -20_000_000, 30_000_000, 400_000_000];
    let a = build_plan(&m, &p, MagnitudeKind::Linear, RenderMode::Thresholded(100_000)).unwrap();
    let b = build_plan(&m, &p, MagnitudeKind::Linear, RenderMode::Thresholded(100_000)).unwrap();
    assert_eq!(a.magnitude_axis, b.magnitude_axis);
    assert_eq!(a.phase_axis, b.phase_axis);
    assert_eq!(a.log_scale, b.log_scale);
    assert_eq!(a.magnitude_style, b.magnitude_style);
    assert_eq!(a.phase, b.phase);
    assert_eq!(a.crossings, b.crossings);
    assert_eq!(a.crossings, vec![1, 3]);
    assert_eq!(a.phase[3], 40_000_000);
}

#[test]
fn build_plan_errors() {
    let e = build_plan(&vec![], &vec![], MagnitudeKind::Decibel, RenderMode::Plain);
    assert_eq!(e.unwrap_err(), PlotError::RenderFailed);
    let e = build_plan(&vec![1, 0], &vec![0, 0], MagnitudeKind::Linear, RenderMode::Plain);
    assert_eq!(e.unwrap_err(), PlotError::RenderFailed);
    let e = build_plan(&vec![1, -2], &vec![0, 0], MagnitudeKind::Linear, RenderMode::Thresholded(1));
    assert_eq!(e.unwrap_err(), PlotError::EvaluationFailed);
    let ok = build_plan(&vec![-7_000_000, 0], &vec![0, 0], MagnitudeKind::Decibel, RenderMode::Plain);
    assert!(ok.is_ok());
}

#[test]
fn sweep_at_the_top_of_the_range() {
    let a = u64::MAX / 2;
    assert_eq!(generate(a, u64::MAX, 2 * HZ), Ok(vec![a, 2 * a]));
}
