use integration::cell::locate;
use integration::subdivision::{Action, Event, Subdivision};
use std::cell::Cell;
use std::f64::consts::PI;

/// The three-point Gauss-Legendre estimate over `[a, b]` and Simpson's
/// estimate over the same interval.
fn estimates(f: &dyn Fn(f64) -> f64, a: f64, b: f64) -> (f64, f64) {
    let k = 0.6_f64;
    let x1 = k.sqrt();
    let x2 = 0_f64;
    let x3 = -x1;
    let w1 = 5.0 / 9.0;
    let w2 = 8.0 / 9.0;
    let w3 = w1;
    let m = (a + b) / 2.0;
    let d = (b - a) / 2.0;
    let y = d * (w1 * f(x1.mul_add(d, m)) + w2 * f(x2.mul_add(d, m)) + w3 * f(x3.mul_add(d, m)));
    (y, d * (f(a) + 4.0 * f(m) + f(b)) / 3.0)
}

/// Adaptive quadrature with the subdivision in charge. Returns the integral
/// and the number of cells that were estimated.
fn integrate(f: &dyn Fn(f64) -> f64, a: f64, b: f64, eps: f64) -> (f64, usize) {
    let mut sub = Subdivision::new();
    let mut cells = 0;
    let mut action = Action::Estimate;
    loop {
        let event = match action {
            Action::Estimate => {
                let mid = |lo: f64, hi: f64| (lo + hi) / 2.0;
                let half = |tolerance: f64| tolerance / 2.0;
                let (lo, hi, tolerance) = locate(sub.cell(), a, b, eps, &mid, &half);
                cells += 1;
                let (y, simpson) = estimates(f, lo, hi);
                if (y - simpson).abs() > tolerance {
                    Event::Split
                } else {
                    Event::Accept(y)
                }
            }
            Action::Add(below, above) => Event::Sum(below + above),
            Action::Finish(value) => return (value, cells),
        };
        action = sub.step(event).unwrap();
    }
}

fn gauss_legendre(f: &dyn Fn(f64) -> f64, a: f64, b: f64, eps: f64) -> f64 {
    integrate(f, a, b, eps).0
}

/// The same rule as a plain recursion.
fn recursion(f: &dyn Fn(f64) -> f64, a: f64, b: f64, eps: f64) -> f64 {
    let (y, simpson) = estimates(f, a, b);
    if (y - simpson).abs() > eps {
        let m = (a + b) / 2.0;
        recursion(f, a, m, eps / 2.0) + recursion(f, m, b, eps / 2.0)
    } else {
        y
    }
}

#[test]
fn sine_over_half_a_period() {
    let y = gauss_legendre(&|x: f64| x.sin(), 0.0, PI, 1e-10);
    assert!((y - 2.0).abs() < 1e-10);
}

#[test]
fn square_from_zero_to_three() {
    for eps in [1.0, 1e-3, 1e-10, 1e-15, 1e-18] {
        let y = gauss_legendre(&|x: f64| x * x, 0.0, 3.0, eps);
        assert!((y - 9.0).abs() <= 9.0 * f64::EPSILON, "eps = {}: {}", eps, y);
    }
}

#[test]
fn constant_one_from_minus_five_to_five() {
    for eps in [1.0, 1e-3, 1e-10, 1e-15, 1e-300] {
        let y = gauss_legendre(&|_: f64| 1.0, -5.0, 5.0, eps);
        assert!((y - 10.0).abs() <= 10.0 * f64::EPSILON, "eps = {}: {}", eps, y);
    }
}

#[test]
fn zero_width_interval_integrates_to_zero() {
    for a in [0.0, 1.5, -3.25, 1e300, -1e-300] {
        for eps in [1e-10, 1.0] {
            assert_eq!(gauss_legendre(&|x: f64| x, a, a, eps), 0.0);
            assert_eq!(gauss_legendre(&|x: f64| x.cos() - 7.0, a, a, eps), 0.0);
            assert_eq!(integrate(&|x: f64| 1.0 / (1.0 + x * x), a, a, eps), (0.0, 1));
        }
    }
}

#[test]
fn smooth_integrands_come_within_tolerance() {
    for eps in [1e-2, 1e-4, 1e-6, 1e-8, 1e-10] {
        let y = gauss_legendre(&|x: f64| x.sin(), 0.0, PI, eps);
        assert!((y - 2.0).abs() <= eps, "sin, eps = {}: {}", eps, y);
        let y = gauss_legendre(&|x: f64| x.cos(), 0.0, 1.0, eps);
        assert!((y - 1.0_f64.sin()).abs() <= eps, "cos, eps = {}: {}", eps, y);
        let y = gauss_legendre(&|x: f64| x.exp(), 0.0, 1.0, eps);
        assert!((y - (1.0_f64.exp() - 1.0)).abs() <= eps, "exp, eps = {}: {}", eps, y);
        let y = gauss_legendre(&|x: f64| x.powi(5) - 2.0 * x.powi(3) + x, -1.0, 2.0, eps);
        assert!((y - 4.5).abs() <= eps, "quintic, eps = {}: {}", eps, y);
    }
}

#[test]
fn polynomials_up_to_degree_five_are_integrated_exactly() {
    let close = |y: f64, exact: f64| (y - exact).abs() <= 8.0 * f64::EPSILON * exact.abs();
    for eps in [1.0, 1e-2, 1e-6, 1e-10] {
        assert!(close(gauss_legendre(&|_: f64| 2.5, 1.0, 4.0, eps), 7.5));
        assert!(close(gauss_legendre(&|x: f64| 3.0 * x - 1.0, 0.0, 2.0, eps), 4.0));
        assert!(close(gauss_legendre(&|x: f64| x * x, 0.0, 3.0, eps), 9.0));
        assert!(close(gauss_legendre(&|x: f64| x.powi(3), 0.0, 2.0, eps), 4.0));
        assert!(close(gauss_legendre(&|x: f64| x.powi(4), 0.0, 1.0, eps), 0.2));
        assert!(close(gauss_legendre(&|x: f64| x.powi(5), 0.0, 2.0, eps), 32.0 / 3.0));
        assert!(close(
            gauss_legendre(&|x: f64| x.powi(5) - 2.0 * x.powi(3) + x, -1.0, 2.0, eps),
            4.5
        ));
    }
}

#[test]
fn cubics_are_accepted_without_subdivision() {
    for eps in [1.0, 1e-3, 1e-6, 1e-10] {
        assert_eq!(integrate(&|_: f64| 1.0, -5.0, 5.0, eps).1, 1);
        assert_eq!(integrate(&|x: f64| 3.0 * x - 1.0, 0.0, 2.0, eps).1, 1);
        assert_eq!(integrate(&|x: f64| x * x, 0.0, 3.0, eps).1, 1);
        assert_eq!(integrate(&|x: f64| x.powi(3), 0.0, 2.0, eps).1, 1);
    }
}

#[test]
fn quartic_is_subdivided_and_still_exact() {
    let (y, cells) = integrate(&|x: f64| x.powi(4), 0.0, 1.0, 1e-6);
    assert!(cells > 1);
    assert!((y - 0.2).abs() <= 2.0 * f64::EPSILON);
}

#[test]
fn each_estimate_takes_six_evaluations() {
    let calls = Cell::new(0usize);
    let f = |x: f64| {
        calls.set(calls.get() + 1);
        x.sin()
    };
    let (_, cells) = integrate(&f, 0.0, PI, 1e-6);
    assert_eq!(calls.get(), 6 * cells);
}

#[test]
fn gauss_legendre_estimate_of_a_square() {
    // d * (5/9 * (m + d * sqrt(0.6))^2 + 8/9 * m^2 + 5/9 * (m - d * sqrt(0.6))^2)
    // with m = d = 1.5 is 1.5 * (10/9 * (2.25 + 1.35) + 8/9 * 2.25) = 9.
    let (y, simpson) = estimates(&|x: f64| x * x, 0.0, 3.0);
    assert!((y - 9.0).abs() <= 9.0 * f64::EPSILON);
    // 1.5 * (0 + 4 * 2.25 + 9) / 3 = 9.
    assert_eq!(simpson, 9.0);
}

#[test]
fn simpson_estimate_of_a_quartic() {
    // 0.5 * (0 + 4 / 16 + 1) / 3 = 5 / 24, while the integral is 1 / 5.
    let (y, simpson) = estimates(&|x: f64| x.powi(4), 0.0, 1.0);
    assert!((simpson - 5.0 / 24.0).abs() <= f64::EPSILON);
    assert!((y - 0.2).abs() <= f64::EPSILON);
}

#[test]
fn integral_over_two_parts_is_integral_over_whole() {
    for eps in [1e-4, 1e-8, 1e-10] {
        let whole = gauss_legendre(&|x: f64| x.sin(), 0.0, PI, eps);
        let parts = gauss_legendre(&|x: f64| x.sin(), 0.0, 1.0, eps)
            + gauss_legendre(&|x: f64| x.sin(), 1.0, PI, eps);
        assert!((whole - parts).abs() <= 3.0 * eps, "eps = {}", eps);
    }
}

#[test]
fn split_interval_is_sum_of_its_halves() {
    let f = |x: f64| x.exp();
    let (_, cells) = integrate(&f, 0.0, 4.0, 1e-8);
    assert!(cells > 1);
    let whole = gauss_legendre(&f, 0.0, 4.0, 1e-8);
    let halves = gauss_legendre(&f, 0.0, 2.0, 0.5e-8) + gauss_legendre(&f, 2.0, 4.0, 0.5e-8);
    assert_eq!(whole.to_bits(), halves.to_bits());
}

#[test]
fn tighter_tolerance_does_not_increase_error() {
    let mut last = f64::INFINITY;
    for eps in [1e-2, 1e-4, 1e-6, 1e-8, 1e-10, 1e-12] {
        let error = (gauss_legendre(&|x: f64| x.sin(), 0.0, PI, eps) - 2.0).abs();
        assert!(error <= last, "eps = {}", eps);
        last = error;
    }
}

#[test]
fn tighter_tolerance_estimates_more_cells() {
    let mut last = 0;
    for eps in [1e-2, 1e-4, 1e-6, 1e-8, 1e-10] {
        let (_, cells) = integrate(&|x: f64| x.sin(), 0.0, PI, eps);
        assert!(cells > last);
        assert_eq!(cells % 2, 1);
        last = cells;
    }
}

#[test]
fn subdivision_gives_what_the_recursion_gives() {
    let integrands: [(&dyn Fn(f64) -> f64, f64, f64); 6] = [
        (&|x: f64| x.sin(), 0.0, PI),
        (&|x: f64| x.cos(), -1.0, 2.5),
        (&|x: f64| x.exp(), 0.0, 4.0),
        (&|x: f64| 1.0 / (1.0 + 25.0 * x * x), -1.0, 1.0),
        (&|x: f64| x.abs().sqrt(), 0.0, 1.0),
        (&|x: f64| x.powi(7) - x, -2.0, 3.0),
    ];
    for (f, a, b) in integrands {
        for eps in [1e-1, 1e-3, 1e-6, 1e-9] {
            let stepped = gauss_legendre(f, a, b, eps);
            let recursive = recursion(f, a, b, eps);
            assert_eq!(stepped.to_bits(), recursive.to_bits());
        }
    }
}

#[test]
fn rounding_alone_may_call_for_subdivision() {
    let (y, cells) = integrate(&|x: f64| x * x, 0.0, 3.0, 1e-18);
    assert!(cells > 1);
    assert!((y - 9.0).abs() <= 9.0 * f64::EPSILON);
}

#[test]
fn non_finite_estimate_is_accepted_as_it_is() {
    let (y, cells) = integrate(&|x: f64| if x == 0.5 { f64::NAN } else { 1.0 }, 0.0, 1.0, 1e-6);
    assert!(y.is_nan());
    assert_eq!(cells, 1);
}

#[test]
fn sixth_power_is_beyond_the_estimate() {
    // 5/9 * (3/5)^3 * 2 = 6/25, while the integral from -1 to 1 is 2/7.
    let (y, _) = estimates(&|x: f64| x.powi(6), -1.0, 1.0);
    assert!((y - 0.24).abs() <= 4.0 * f64::EPSILON);
    assert!((y - 2.0 / 7.0).abs() > 0.04);
}

#[test]
fn cubic_with_all_terms_is_accepted_at_once() {
    let f = |x: f64| 2.0 - 3.0 * x + 0.5 * x * x + 4.0 * x * x * x;
    // 2x - 3x^2/2 + x^3/6 + x^4 between -1 and 2.
    let exact = (4.0 - 6.0 + 8.0 / 6.0 + 16.0) - (-2.0 - 1.5 - 1.0 / 6.0 + 1.0);
    for eps in [1.0, 1e-4, 1e-9] {
        let (y, cells) = integrate(&f, -1.0, 2.0, eps);
        assert_eq!(cells, 1);
        assert!((y - exact).abs() <= 8.0 * f64::EPSILON * exact);
    }
}
