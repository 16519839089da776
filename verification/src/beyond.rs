//! A power that the rule does not integrate exactly.

use crate::quadrature::gauss;
use vstd::prelude::*;

verus! {

/// The function that raises its argument to the sixth power.
pub open spec fn sixth() -> spec_fn(real) -> real {
    |x: real| (x * x) * (x * x) * (x * x)
}

/// The sixth power is beyond the rule: its estimate from minus one to one
/// is 6/25, where the integral is 2/7.
pub proof fn estimate_of_sixth_is_not_exact(node: real)
    requires
        node * node == 3real / 5real,
    ensures
        gauss(sixth(), node, -1real, 1real) == 6real / 25real,
{
    reveal(gauss);
    let f = sixth();
    let d = (1real - (-1real)) / 2real;
    let m = (-1real + 1real) / 2real;
    let (x1, x3) = (node * d + m, -node * d + m);
    assert(d == 1real && m == 0real);
    assert(x1 == node && x3 == -node) by (nonlinear_arith)
        requires
            x1 == node * d + m,
            x3 == -node * d + m,
            d == 1real,
            m == 0real,
    ;
    let n2 = node * node;
    let r2 = (-node) * (-node);
    assert(r2 == n2) by (nonlinear_arith)
        requires
            r2 == (-node) * (-node),
            n2 == node * node,
    ;
    let cubed = n2 * n2 * n2;
    assert(cubed == 27real / 125real) by (nonlinear_arith)
        requires
            cubed == n2 * n2 * n2,
            n2 == 3real / 5real,
    ;
    let (y1, y2, y3) = (f(x1), f(m), f(x3));
    assert(y1 == cubed);
    assert(y3 == cubed);
    assert(y2 == 0real) by (nonlinear_arith)
        requires
            y2 == (m * m) * (m * m) * (m * m),
            m == 0real,
    ;
    assert(d * (5real / 9real * y1 + 8real / 9real * y2 + 5real / 9real * y3) == 6real / 25real)
        by (nonlinear_arith)
        requires
            d == 1real,
            y1 == 27real / 125real,
            y2 == 0real,
            y3 == 27real / 125real,
    ;
}

} // verus!
