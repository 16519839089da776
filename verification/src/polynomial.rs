//! Powers that the rule integrates exactly.

use crate::quadrature::{equal_estimates_are_accepted, gauss, rule, simpson};
use vstd::prelude::*;

verus! {

/// The function that is one everywhere.
pub open spec fn one() -> spec_fn(real) -> real {
    |x: real| 1real
}

/// The function that gives its argument back.
pub open spec fn identity() -> spec_fn(real) -> real {
    |x: real| x
}

/// The function that squares its argument.
pub open spec fn square() -> spec_fn(real) -> real {
    |x: real| x * x
}

/// The function that raises its argument to the third power.
pub open spec fn cube() -> spec_fn(real) -> real {
    |x: real| x * x * x
}

/// Both estimates of the square are its integral, over any interval.
pub proof fn estimates_of_square_are_exact(node: real, lo: real, hi: real)
    requires
        node * node == 3real / 5real,
    ensures
        gauss(square(), node, lo, hi) == (hi * hi * hi - lo * lo * lo) / 3real,
        simpson(square(), lo, hi) == (hi * hi * hi - lo * lo * lo) / 3real,
{
    reveal(gauss);
    reveal(simpson);
    let f = square();
    let m = (lo + hi) / 2real;
    let d = (hi - lo) / 2real;
    let t = node * d;
    let (x1, x3) = (node * d + m, -node * d + m);
    let (y1, y2, y3) = (f(x1), f(m), f(x3));
    let tt = t * t;
    let mm = m * m;
    let e = (hi * hi * hi - lo * lo * lo) / 3real;
    assert(y1 + y3 == 2real * mm + 2real * tt) by (nonlinear_arith)
        requires
            y1 == x1 * x1,
            y3 == x3 * x3,
            x1 == node * d + m,
            x3 == -node * d + m,
            t == node * d,
            tt == t * t,
            mm == m * m,
    ;
    assert(tt == 3real / 5real * (d * d)) by (nonlinear_arith)
        requires
            tt == (node * d) * (node * d),
            node * node == 3real / 5real,
    ;
    assert(e == 2real * (mm * d) + 2real / 3real * (d * d * d)) by (nonlinear_arith)
        requires
            hi == m + d,
            lo == m - d,
            mm == m * m,
            e == (hi * hi * hi - lo * lo * lo) / 3real,
    ;
    assert(d * (5real / 9real * y1 + 8real / 9real * y2 + 5real / 9real * y3) == e)
        by (nonlinear_arith)
        requires
            y1 + y3 == 2real * mm + 2real * tt,
            y2 == mm,
            tt == 3real / 5real * (d * d),
            e == 2real * (mm * d) + 2real / 3real * (d * d * d),
    ;
    let (z1, z3) = (f(lo), f(hi));
    assert(z1 + z3 == 2real * mm + 2real * (d * d)) by (nonlinear_arith)
        requires
            z1 == lo * lo,
            z3 == hi * hi,
            hi == m + d,
            lo == m - d,
            mm == m * m,
    ;
    assert(d * (z1 + 4real * y2 + z3) / 3real == e) by (nonlinear_arith)
        requires
            z1 + z3 == 2real * mm + 2real * (d * d),
            y2 == mm,
            e == 2real * (mm * d) + 2real / 3real * (d * d * d),
    ;
}

/// Both estimates of the constant one and of the identity are their
/// integrals, over any interval.
pub proof fn estimates_of_line_are_exact(node: real, lo: real, hi: real)
    ensures
        gauss(one(), node, lo, hi) == hi - lo,
        simpson(one(), lo, hi) == hi - lo,
        gauss(identity(), node, lo, hi) == (hi * hi - lo * lo) / 2real,
        simpson(identity(), lo, hi) == (hi * hi - lo * lo) / 2real,
{
    reveal(gauss);
    reveal(simpson);
    let one = one();
    let same = identity();
    let m = (lo + hi) / 2real;
    let d = (hi - lo) / 2real;
    let (x1, x3) = (node * d + m, -node * d + m);
    let e = (hi * hi - lo * lo) / 2real;
    assert(d * (5real / 9real * 1real + 8real / 9real * 1real + 5real / 9real * 1real) == hi - lo)
        by (nonlinear_arith)
        requires
            hi - lo == 2real * d,
    ;
    assert(d * (1real + 4real * 1real + 1real) / 3real == hi - lo) by (nonlinear_arith)
        requires
            hi - lo == 2real * d,
    ;
    assert(e == 2real * (m * d)) by (nonlinear_arith)
        requires
            hi == m + d,
            lo == m - d,
            e == (hi * hi - lo * lo) / 2real,
    ;
    assert(x1 + x3 == 2real * m) by (nonlinear_arith)
        requires
            x1 == node * d + m,
            x3 == -node * d + m,
    ;
    assert(d * (5real / 9real * x1 + 8real / 9real * m + 5real / 9real * x3) == e)
        by (nonlinear_arith)
        requires
            x1 + x3 == 2real * m,
            e == 2real * (m * d),
    ;
    assert(d * (lo + 4real * m + hi) / 3real == e) by (nonlinear_arith)
        requires
            lo + hi == 2real * m,
            e == 2real * (m * d),
    ;
    assert(one(x1) == 1real && one(m) == 1real && one(x3) == 1real);
    assert(same(x1) == x1 && same(m) == m && same(x3) == x3);
}

/// Both estimates of the cube are its integral, over any interval.
pub proof fn estimates_of_cube_are_exact(node: real, lo: real, hi: real)
    requires
        node * node == 3real / 5real,
    ensures
        gauss(cube(), node, lo, hi) == (hi * hi * hi * hi - lo * lo * lo * lo) / 4real,
        simpson(cube(), lo, hi) == (hi * hi * hi * hi - lo * lo * lo * lo) / 4real,
{
    reveal(gauss);
    reveal(simpson);
    let f = cube();
    let m = (lo + hi) / 2real;
    let d = (hi - lo) / 2real;
    let t = node * d;
    let (x1, x3) = (node * d + m, -node * d + m);
    let (y1, y2, y3) = (f(x1), f(m), f(x3));
    let tt = t * t;
    let dd = d * d;
    let m3 = m * m * m;
    let mtt = m * tt;
    let mdd = m * dd;
    let e = (hi * hi * hi * hi - lo * lo * lo * lo) / 4real;
    assert(y1 + y3 == 2real * m3 + 6real * mtt) by (nonlinear_arith)
        requires
            y1 == x1 * x1 * x1,
            y3 == x3 * x3 * x3,
            x1 == node * d + m,
            x3 == -node * d + m,
            t == node * d,
            tt == t * t,
            mtt == m * tt,
            m3 == m * m * m,
    ;
    assert(tt == 3real / 5real * dd) by (nonlinear_arith)
        requires
            tt == (node * d) * (node * d),
            dd == d * d,
            node * node == 3real / 5real,
    ;
    assert(mtt == 3real / 5real * mdd) by (nonlinear_arith)
        requires
            mtt == m * tt,
            mdd == m * dd,
            tt == 3real / 5real * dd,
    ;
    let (p, q) = (hi * hi, lo * lo);
    assert(p - q == 4real * (m * d) && p + q == 2real * (m * m) + 2real * dd) by (nonlinear_arith)
        requires
            p == hi * hi,
            q == lo * lo,
            hi == m + d,
            lo == m - d,
            dd == d * d,
    ;
    assert(hi * hi * hi * hi - lo * lo * lo * lo == (p - q) * (p + q)) by (nonlinear_arith)
        requires
            p == hi * hi,
            q == lo * lo,
    ;
    assert((4real * (m * d)) * (2real * (m * m) + 2real * dd) == 8real * (m3 * d) + 8real * (mdd
        * d)) by (nonlinear_arith)
        requires
            m3 == m * m * m,
            mdd == m * dd,
    ;
    assert(e == 2real * (m3 * d) + 2real * (mdd * d));
    assert(d * (5real / 9real * y1 + 8real / 9real * y2 + 5real / 9real * y3) == e)
        by (nonlinear_arith)
        requires
            y1 + y3 == 2real * m3 + 6real * mtt,
            y2 == m3,
            mtt == 3real / 5real * mdd,
            e == 2real * (m3 * d) + 2real * (mdd * d),
    ;
    let (z1, z3) = (f(lo), f(hi));
    assert(z1 + z3 == 2real * m3 + 6real * mdd) by (nonlinear_arith)
        requires
            z1 == lo * lo * lo,
            z3 == hi * hi * hi,
            hi == m + d,
            lo == m - d,
            m3 == m * m * m,
            mdd == m * dd,
            dd == d * d,
    ;
    assert(d * (z1 + 4real * y2 + z3) / 3real == e) by (nonlinear_arith)
        requires
            z1 + z3 == 2real * m3 + 6real * mdd,
            y2 == m3,
            e == 2real * (m3 * d) + 2real * (mdd * d),
    ;
}

/// The constant one is integrated exactly over any interval, whatever the
/// tolerance, and no halving is needed.
pub proof fn one_is_integrated_exactly(node: real, a: real, b: real, eps: real)
    requires
        eps >= 0real,
    ensures
        rule(one(), node, a, b, eps).integral(Seq::empty(), 0) == Some(b - a),
{
    estimates_of_line_are_exact(node, a, b);
    equal_estimates_are_accepted(one(), node, a, b, eps);
}

/// The identity is integrated exactly over any interval, whatever the
/// tolerance, and no halving is needed.
pub proof fn identity_is_integrated_exactly(node: real, a: real, b: real, eps: real)
    requires
        eps >= 0real,
    ensures
        rule(identity(), node, a, b, eps).integral(Seq::empty(), 0) == Some(
            (b * b - a * a) / 2real,
        ),
{
    estimates_of_line_are_exact(node, a, b);
    equal_estimates_are_accepted(identity(), node, a, b, eps);
}

/// The square is integrated exactly over any interval, whatever the
/// tolerance, and no halving is needed.
pub proof fn square_is_integrated_exactly(node: real, a: real, b: real, eps: real)
    requires
        node * node == 3real / 5real,
        eps >= 0real,
    ensures
        rule(square(), node, a, b, eps).integral(Seq::empty(), 0) == Some(
            (b * b * b - a * a * a) / 3real,
        ),
{
    estimates_of_square_are_exact(node, a, b);
    equal_estimates_are_accepted(square(), node, a, b, eps);
}

/// The cube is integrated exactly over any interval, whatever the
/// tolerance, and no halving is needed.
pub proof fn cube_is_integrated_exactly(node: real, a: real, b: real, eps: real)
    requires
        node * node == 3real / 5real,
        eps >= 0real,
    ensures
        rule(cube(), node, a, b, eps).integral(Seq::empty(), 0) == Some(
            (b * b * b * b - a * a * a * a) / 4real,
        ),
{
    estimates_of_cube_are_exact(node, a, b);
    equal_estimates_are_accepted(cube(), node, a, b, eps);
}

} // verus!
