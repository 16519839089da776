//! The rule of estimate and verdict, over the real numbers.
//!
//! The three-point Gauss-Legendre estimate is judged against Simpson's
//! estimate over the same cell. The outer nodes of the Gauss-Legendre rule
//! lie at plus and minus the square root of 3/5 on `[-1, 1]`; the functions
//! here take that root as `node` and the laws ask that its square is 3/5.

use crate::cell::{bounds, halves_of_cell, tolerance};
use crate::recursion::Rule;
use vstd::prelude::*;

verus! {

/// The distance of `x` from zero.
pub open spec fn magnitude(x: real) -> real {
    if x < 0real {
        -x
    } else {
        x
    }
}

/// The three-point Gauss-Legendre estimate of the integral of `f` over
/// `[lo, hi]`: the nodes `node`, 0 and `-node` of `[-1, 1]` are carried to
/// `[lo, hi]`, and the values of `f` there are weighted by 5/9, 8/9 and 5/9.
#[verifier::opaque]
pub open spec fn gauss(f: spec_fn(real) -> real, node: real, lo: real, hi: real) -> real {
    let m = (lo + hi) / 2real;
    let d = (hi - lo) / 2real;
    d * (5real / 9real * f(node * d + m) + 8real / 9real * f(m) + 5real / 9real * f(
        -node * d + m,
    ))
}

/// Simpson's estimate of the integral of `f` over `[lo, hi]`.
#[verifier::opaque]
pub open spec fn simpson(f: spec_fn(real) -> real, lo: real, hi: real) -> real {
    let m = (lo + hi) / 2real;
    let d = (hi - lo) / 2real;
    d * (f(lo) + 4real * f(m) + f(hi)) / 3real
}

/// Adaptive Gauss-Legendre quadrature of `f` over `[a, b]` with tolerance
/// `eps`, as a rule for a subdivision: the estimate over a cell is the
/// Gauss-Legendre one, it is accepted unless it lies further than the
/// tolerance of the cell from Simpson's, and integrals are added.
pub open spec fn rule(f: spec_fn(real) -> real, node: real, a: real, b: real, eps: real) -> Rule<
    real,
> {
    Rule {
        accepts: |cell: Seq<bool>|
            {
                let (lo, hi) = bounds(a, b, cell);
                !(magnitude(gauss(f, node, lo, hi) - simpson(f, lo, hi)) > tolerance(eps, cell))
            },
        estimate: |cell: Seq<bool>|
            {
                let (lo, hi) = bounds(a, b, cell);
                gauss(f, node, lo, hi)
            },
        sum: |below: real, above: real| below + above,
    }
}

/// Over an interval without width every function has the integral zero,
/// and no halving is needed to find it.
pub proof fn zero_width(f: spec_fn(real) -> real, node: real, a: real, eps: real)
    requires
        eps > 0real,
    ensures
        rule(f, node, a, a, eps).integral(Seq::empty(), 0) == Some(0real),
{
    reveal(gauss);
    reveal(simpson);
    let d = (a - a) / 2real;
    assert(d == 0real);
    let g = 5real / 9real * f(node * d + (a + a) / 2real) + 8real / 9real * f((a + a) / 2real)
        + 5real / 9real * f(-node * d + (a + a) / 2real);
    let s = f(a) + 4real * f((a + a) / 2real) + f(a);
    assert(d * g == 0real) by (nonlinear_arith)
        requires
            d == 0real,
    ;
    assert(d * s / 3real == 0real) by (nonlinear_arith)
        requires
            d == 0real,
    ;
    assert(gauss(f, node, a, a) == 0real);
    assert(simpson(f, a, a) == 0real);
}

/// Where the two estimates over the whole interval agree, the estimate is
/// accepted at once, whatever the tolerance.
pub proof fn equal_estimates_are_accepted(
    f: spec_fn(real) -> real,
    node: real,
    a: real,
    b: real,
    eps: real,
)
    requires
        eps >= 0real,
        gauss(f, node, a, b) == simpson(f, a, b),
    ensures
        rule(f, node, a, b, eps).integral(Seq::empty(), 0) == Some(gauss(f, node, a, b)),
{
}

/// Where the estimate over every interval is the difference of one function
/// at its two ends, the integral over a cell, however far the halving goes,
/// is that difference at the ends of the cell: no halving changes the
/// result.
pub proof fn exact_estimates_add_up(
    f: spec_fn(real) -> real,
    primitive: spec_fn(real) -> real,
    node: real,
    a: real,
    b: real,
    eps: real,
    cell: Seq<bool>,
    depth: nat,
)
    requires
        forall|lo: real, hi: real| #[trigger] gauss(f, node, lo, hi) == primitive(hi) - primitive(lo),
        rule(f, node, a, b, eps).integral(cell, depth) is Some,
    ensures
        rule(f, node, a, b, eps).integral(cell, depth) == Some(
            primitive(bounds(a, b, cell).1) - primitive(bounds(a, b, cell).0),
        ),
    decreases depth,
{
    let r = rule(f, node, a, b, eps);
    if !(r.accepts)(cell) {
        halves_of_cell(a, b, eps, cell);
        exact_estimates_add_up(f, primitive, node, a, b, eps, cell.push(false), (depth - 1) as nat);
        exact_estimates_add_up(f, primitive, node, a, b, eps, cell.push(true), (depth - 1) as nat);
    }
}

/// The constant one has the integral ten from minus five to five, whatever
/// the tolerance, and no halving is needed to find it.
pub proof fn one_from_minus_five_to_five(node: real, eps: real)
    requires
        eps >= 0real,
    ensures
        rule(|x: real| 1real, node, -5real, 5real, eps).integral(Seq::empty(), 0) == Some(10real),
{
    reveal(gauss);
    reveal(simpson);
    let f = |x: real| 1real;
    let d = (5real - (-5real)) / 2real;
    let m = (-5real + 5real) / 2real;
    let (y1, y2, y3) = (f(node * d + m), f(m), f(-node * d + m));
    assert(d * (5real / 9real * y1 + 8real / 9real * y2 + 5real / 9real * y3) == 10real)
        by (nonlinear_arith)
        requires
            d == 5real,
            y1 == 1real,
            y2 == 1real,
            y3 == 1real,
    ;
    assert(d * (f(-5real) + 4real * f(m) + f(5real)) / 3real == 10real) by (nonlinear_arith)
        requires
            d == 5real,
            f(-5real) == 1real,
            f(m) == 1real,
            f(5real) == 1real,
    ;
    assert(gauss(f, node, -5real, 5real) == 10real);
    assert(simpson(f, -5real, 5real) == 10real);
}

/// The square has the integral nine from zero to three, whatever the
/// tolerance, and no halving is needed to find it.
pub proof fn square_from_zero_to_three(node: real, eps: real)
    requires
        node * node == 3real / 5real,
        eps >= 0real,
    ensures
        rule(|x: real| x * x, node, 0real, 3real, eps).integral(Seq::empty(), 0) == Some(9real),
{
    reveal(gauss);
    reveal(simpson);
    let f = |x: real| x * x;
    let h = 3real / 2real;
    let t = node * h;
    assert(t * t == 27real / 20real) by (nonlinear_arith)
        requires
            t == node * h,
            h == 3real / 2real,
            node * node == 3real / 5real,
    ;
    assert((t + h) * (t + h) + (-t + h) * (-t + h) == 2real * (t * t) + 2real * (h * h))
        by (nonlinear_arith);
    assert(h * h == 9real / 4real) by (nonlinear_arith)
        requires
            h == 3real / 2real,
    ;
    assert(-node * h == -t) by (nonlinear_arith)
        requires
            t == node * h,
    ;
    let (y1, y2, y3) = (f(node * h + h), f(h), f(-node * h + h));
    assert(y1 + y3 == 2real * (t * t) + 2real * (h * h));
    assert(h * (5real / 9real * y1 + 8real / 9real * y2 + 5real / 9real * y3) == 9real)
        by (nonlinear_arith)
        requires
            h == 3real / 2real,
            y1 + y3 == 2real * (27real / 20real) + 2real * (9real / 4real),
            y2 == 9real / 4real,
    ;
    assert(gauss(f, node, 0real, 3real) == 9real);
    assert(h * (f(0real) + 4real * f(h) + f(3real)) / 3real == 9real) by (nonlinear_arith)
        requires
            h == 3real / 2real,
            f(0real) == 0real,
            f(h) == 9real / 4real,
            f(3real) == 9real,
    ;
    assert(simpson(f, 0real, 3real) == 9real);
}

} // verus!
