use vglnt::fixed::{clamp, floor_div, isqrt};
use vglnt::grid::OutputGrid;
use vglnt::series::{
    correlation_with_next, crossing_rate, deviation, fraction_above, mean, mean_change,
    mean_exceeds, moments, variance, variance_under,
};

const UNIT: i32 = 1_000_000;

#[test]
fn floor_div_rounds_towards_minus_infinity() {
    assert_eq!(floor_div(7, 2), 3);
    assert_eq!(floor_div(-7, 2), -4);
    assert_eq!(floor_div(-8, 2), -4);
    assert_eq!(floor_div(0, 5), 0);
    assert_eq!(floor_div(-1, 1_000_000), -1);
    assert_eq!(floor_div(i128::MAX, 1), i128::MAX);
    assert_eq!(floor_div(i128::MIN + 1, 1), i128::MIN + 1);
}

#[test]
fn clamp_keeps_within_the_interval() {
    assert_eq!(clamp(5, 0, 10), 5);
    assert_eq!(clamp(-5, 0, 10), 0);
    assert_eq!(clamp(15, 0, 10), 10);
    assert_eq!(clamp(0, 0, 0), 0);
}

#[test]
fn isqrt_rounds_down() {
    assert_eq!(isqrt(0), 0);
    assert_eq!(isqrt(1), 1);
    assert_eq!(isqrt(3), 1);
    assert_eq!(isqrt(4), 2);
    assert_eq!(isqrt(99), 9);
    assert_eq!(isqrt(100), 10);
    assert_eq!(isqrt(6_000_000_000_000), 2_449_489);
    assert_eq!(isqrt(u128::MAX), u64::MAX);
    assert_eq!(isqrt(1u128 << 126), 1u64 << 63);
}

#[test]
fn moments_are_count_sum_and_sum_of_squares() {
    let m = moments(&vec![1, -2, 3]);
    assert_eq!(m.count, 3);
    assert_eq!(m.sum, 2);
    assert_eq!(m.sum_sq, 14);
}

#[test]
fn mean_rounds_down() {
    assert_eq!(mean(&vec![900_000, 900_000]), 900_000);
    assert_eq!(mean(&vec![1, 2]), 1);
    assert_eq!(mean(&vec![-1, -2]), -2);
    assert_eq!(mean(&vec![i32::MAX, i32::MAX]), i32::MAX as i64);
    assert_eq!(mean(&vec![i32::MIN]), i32::MIN as i64);
}

#[test]
fn mean_is_compared_exactly() {
    assert!(!mean_exceeds(&vec![700_000, 700_000], 700_000));
    assert!(mean_exceeds(&vec![700_000, 700_001], 700_000));
    assert!(!mean_exceeds(&vec![699_999, 700_001], 700_000));
    assert!(mean_exceeds(&vec![-1], -2));
}

#[test]
fn variance_is_the_population_variance() {
    assert_eq!(variance(&vec![0, 2 * UNIT]), 1_000_000);
    assert_eq!(variance(&vec![900_000, 800_000, 700_000, 1_000_000]), 12_500);
    assert_eq!(variance(&vec![100_000, 300_000, 200_000, 500_000, 400_000]), 20_000);
    assert_eq!(variance(&vec![7]), 0);
    assert_eq!(variance(&vec![5, 5, 5, 5]), 0);
}

#[test]
fn variance_is_compared_exactly() {
    assert!(variance_under(&vec![5, 5], 100_000));
    assert!(!variance_under(&vec![0, 2 * UNIT], 100_000));
    assert!(!variance_under(&vec![0, 2 * UNIT], UNIT));
    assert!(variance_under(&vec![0, 2 * UNIT], UNIT + 1));
    assert!(!variance_under(&vec![5, 5], 0));
}

#[test]
fn deviation_is_the_root_of_the_variance() {
    assert_eq!(deviation(&vec![0, 2 * UNIT]), 1_000_000);
    assert_eq!(deviation(&vec![900_000, 800_000, 700_000, 1_000_000]), 111_803);
    assert_eq!(deviation(&vec![100_000, 300_000, 200_000, 500_000, 400_000]), 141_421);
    assert_eq!(deviation(&vec![3, 3]), 0);
}

#[test]
fn fraction_above_counts_strictly_greater_samples() {
    assert_eq!(fraction_above(&vec![800_000, 600_000, 900_000, 700_000], 700_000), 500_000);
    assert_eq!(fraction_above(&vec![1, 1, 1], 0), 1_000_000);
    assert_eq!(fraction_above(&vec![1, 1, 1], 1), 0);
    assert_eq!(fraction_above(&vec![1, 0, 0], 0), 333_333);
}

#[test]
fn crossing_rate_counts_rises_only() {
    assert_eq!(crossing_rate(&vec![500_000, 800_000, 600_000, 900_000], 700_000), 500_000);
    assert_eq!(crossing_rate(&vec![900_000, 500_000, 500_000], 700_000), 0);
    assert_eq!(crossing_rate(&vec![900_000], 700_000), 0);
}

#[test]
fn mean_change_is_the_mean_absolute_difference() {
    assert_eq!(mean_change(&vec![0, UNIT, 3 * UNIT], 1), 1_500_000);
    assert_eq!(mean_change(&vec![3 * UNIT, UNIT, 0], 1), 1_500_000);
    assert_eq!(mean_change(&vec![0, 10, 4, 20], 2), 7);
    assert_eq!(mean_change(&vec![0, 10], 2), 0);
    assert_eq!(mean_change(&vec![0, 10], 5), 0);
    assert_eq!(mean_change(&Vec::new(), 1), 0);
    assert_eq!(mean_change(&vec![i32::MIN, i32::MAX], 1), 4_294_967_295);
    assert_eq!(mean_change(&vec![4, 9], 0), 0);
}

#[test]
fn correlation_with_next_is_pearson_at_lag_one() {
    assert_eq!(correlation_with_next(&vec![0, UNIT, 2 * UNIT, 3 * UNIT]), 1_000_000);
    assert_eq!(correlation_with_next(&vec![0, UNIT, 0, UNIT]), -1_000_000);
    assert_eq!(correlation_with_next(&vec![0, UNIT, UNIT, 0]), -500_001);
    assert_eq!(
        correlation_with_next(&vec![100_000, 300_000, 200_000, 500_000, 400_000]),
        75_593
    );
}

#[test]
fn correlation_of_a_series_that_does_not_vary_is_zero() {
    assert_eq!(correlation_with_next(&vec![UNIT, UNIT, UNIT]), 0);
    assert_eq!(correlation_with_next(&vec![UNIT]), 0);
    assert_eq!(correlation_with_next(&Vec::new()), 0);
    assert_eq!(correlation_with_next(&vec![0, UNIT]), 0);
}

#[test]
fn correlation_takes_extreme_samples() {
    let r = correlation_with_next(&vec![i32::MIN, i32::MAX, i32::MIN, i32::MAX]);
    assert_eq!(r, -1_000_000);
}

#[test]
fn grid_is_made_of_whole_rows() {
    let grid = OutputGrid::new(2, vec![1, 2, 3, 4, 5, 6]).unwrap();
    assert_eq!(grid.steps(), 3);
    assert_eq!(grid.width(), 2);
    assert_eq!(grid.cells(), &vec![1, 2, 3, 4, 5, 6]);
    assert_eq!(grid.value(0, 0), 1);
    assert_eq!(grid.value(1, 0), 3);
    assert_eq!(grid.value(2, 1), 6);
    assert_eq!(grid.column(0), vec![1, 3, 5]);
    assert_eq!(grid.column(1), vec![2, 4, 6]);
}

#[test]
fn grid_refuses_shapes_that_are_no_grid() {
    assert_eq!(OutputGrid::new(0, vec![1, 2]), None);
    assert_eq!(OutputGrid::new(2, Vec::new()), None);
    assert_eq!(OutputGrid::new(2, vec![1, 2, 3]), None);
    assert_eq!(OutputGrid::new(4, vec![1, 2]), None);
    assert!(OutputGrid::new(1, vec![0; 1_048_576]).is_some());
    assert_eq!(OutputGrid::new(1, vec![0; 1_048_577]), None);
    assert!(OutputGrid::new(2, vec![0; 2_097_152]).is_some());
}
