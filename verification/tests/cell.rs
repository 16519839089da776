use integration::cell::locate;

fn mid(lo: i64, hi: i64) -> i64 {
    (lo + hi) / 2
}

fn half(tolerance: i64) -> i64 {
    tolerance / 2
}

#[test]
fn whole_interval_is_located_as_given() {
    assert_eq!(locate(&vec![], -7, 9, 32, &mid, &half), (-7, 9, 32));
}

#[test]
fn lower_half_keeps_the_lower_end() {
    assert_eq!(locate(&vec![false], 0, 1024, 4096, &mid, &half), (0, 512, 2048));
}

#[test]
fn upper_half_keeps_the_upper_end() {
    assert_eq!(locate(&vec![true], 0, 1024, 4096, &mid, &half), (512, 1024, 2048));
}

#[test]
fn halvings_are_taken_outermost_first() {
    assert_eq!(locate(&vec![true, false, true], 0, 1024, 4096, &mid, &half), (640, 768, 512));
    assert_eq!(locate(&vec![false, true, true], 0, 1024, 4096, &mid, &half), (384, 512, 512));
    assert_eq!(locate(&vec![false, false, false], 0, 1024, 4096, &mid, &half), (0, 128, 512));
}

#[test]
fn cut_and_half_are_the_callers() {
    // A cut at the first third and a tolerance that loses one per halving.
    let third = |lo: i64, hi: i64| lo + (hi - lo) / 3;
    let less = |tolerance: i64| tolerance - 1;
    assert_eq!(locate(&vec![true, false], 0, 900, 10, &third, &less), (300, 500, 8));
}

#[test]
fn floating_point_ends_are_those_of_repeated_halving() {
    let mid = |lo: f64, hi: f64| (lo + hi) / 2.0;
    let half = |tolerance: f64| tolerance / 2.0;
    let (lo, hi, tolerance) = locate(&vec![true, true, false], 0.0, 3.0, 1e-3, &mid, &half);
    assert_eq!(lo, 2.25);
    assert_eq!(hi, 2.625);
    assert_eq!(tolerance, 1.25e-4);
}

#[test]
fn zero_width_interval_stays_where_it_is() {
    let mid = |lo: f64, hi: f64| (lo + hi) / 2.0;
    let half = |tolerance: f64| tolerance / 2.0;
    let (lo, hi, tolerance) = locate(&vec![false, true], 1.5, 1.5, 1.0, &mid, &half);
    assert_eq!((lo, hi, tolerance), (1.5, 1.5, 0.25));
}
