//! The fourth and the fifth power, which the Gauss-Legendre estimate still
//! integrates exactly and Simpson's no longer does.

use crate::cell::bounds;
use crate::quadrature::{exact_estimates_add_up, gauss, rule};
use vstd::prelude::*;

verus! {

/// The function that raises its argument to the fourth power.
pub open spec fn fourth() -> spec_fn(real) -> real {
    |x: real| (x * x) * (x * x)
}

/// A fifth of the fifth power: its derivative is the fourth power.
pub open spec fn fifth_of_fifth() -> spec_fn(real) -> real {
    |x: real| (x * x) * (x * x) * x / 5real
}

/// The squares of `m + t` and `m - t`, their sum and their difference, and
/// the same of their squares.
proof fn squares_twice(m: real, t: real) -> (r: (real, real, real, real))
    ensures
        r.0 == (m + t) * (m + t),
        r.1 == (m - t) * (m - t),
        r.2 == r.0 * r.0,
        r.3 == r.1 * r.1,
        r.2 + r.3 == 2real * ((m * m) * (m * m)) + 12real * ((m * m) * (t * t)) + 2real * ((t * t)
            * (t * t)),
        r.2 - r.3 == 8real * ((m * m) * (m * t)) + 8real * ((t * t) * (m * t)),
        r.0 - r.1 == 4real * (m * t),
        r.0 * r.1 == (m * m) * (m * m) - 2real * ((m * m) * (t * t)) + (t * t) * (t * t),
{
    let (p, q) = ((m + t) * (m + t), (m - t) * (m - t));
    let (mm, tt, mt) = (m * m, t * t, m * t);
    let (s, w) = (mm + tt, 2real * mt);
    assert(p == s + w && q == s - w) by (nonlinear_arith)
        requires
            p == (m + t) * (m + t),
            q == (m - t) * (m - t),
            s == m * m + t * t,
            w == 2real * (m * t),
    ;
    let (y, z) = (p * p, q * q);
    assert(y + z == 2real * (s * s) + 2real * (w * w) && y - z == 4real * (s * w))
        by (nonlinear_arith)
        requires
            y == p * p,
            z == q * q,
            p == s + w,
            q == s - w,
    ;
    assert(s * s == mm * mm + 2real * (mm * tt) + tt * tt) by (nonlinear_arith)
        requires
            s == mm + tt,
    ;
    assert(w * w == 4real * (mm * tt)) by (nonlinear_arith)
        requires
            w == 2real * (m * t),
            mm == m * m,
            tt == t * t,
    ;
    assert(s * w == 2real * (mm * mt) + 2real * (tt * mt)) by (nonlinear_arith)
        requires
            s == mm + tt,
            w == 2real * mt,
    ;
    assert(p * q == s * s - w * w) by (nonlinear_arith)
        requires
            p == s + w,
            q == s - w,
    ;
    (p, q, y, z)
}

/// The Gauss-Legendre estimate of the fourth power is its integral, over
/// any interval.
pub proof fn estimate_of_fourth_is_exact(node: real, lo: real, hi: real)
    requires
        node * node == 3real / 5real,
    ensures
        gauss(fourth(), node, lo, hi) == fifth_of_fifth()(hi) - fifth_of_fifth()(lo),
{
    reveal(gauss);
    let f = fourth();
    let m = (lo + hi) / 2real;
    let d = (hi - lo) / 2real;
    let t = node * d;
    let (x1, x3) = (node * d + m, -node * d + m);
    assert(x1 == m + t && x3 == m - t) by (nonlinear_arith)
        requires
            x1 == node * d + m,
            x3 == -node * d + m,
            t == node * d,
    ;
    assert(hi == m + d && lo == m - d);
    let (mm, tt, dd) = (m * m, t * t, d * d);
    let (m4, mmtt, t4) = (mm * mm, mm * tt, tt * tt);
    let (mmdd, d4) = (mm * dd, dd * dd);
    let (s1, s3, y1, y3) = squares_twice(m, t);
    let (ph, pl, h4, l4) = squares_twice(m, d);
    let y2 = f(m);
    assert(f(x1) == y1 && f(x3) == y3 && y2 == m4);
    assert(tt == 3real / 5real * dd) by (nonlinear_arith)
        requires
            tt == (node * d) * (node * d),
            dd == d * d,
            node * node == 3real / 5real,
    ;
    assert(mmtt == 3real / 5real * mmdd && t4 == 9real / 25real * d4) by (nonlinear_arith)
        requires
            mmtt == mm * tt,
            mmdd == mm * dd,
            t4 == tt * tt,
            d4 == dd * dd,
            tt == 3real / 5real * dd,
    ;
    // The integral: a fifth of the difference of the fifth powers.
    let (h5, l5) = (h4 * hi, l4 * lo);
    let md = m * d;
    let (sum, difference) = (h4 + l4, h4 - l4);
    assert(h5 - l5 == m * difference + d * sum) by (nonlinear_arith)
        requires
            h5 == h4 * hi,
            l5 == l4 * lo,
            hi == m + d,
            lo == m - d,
            sum == h4 + l4,
            difference == h4 - l4,
    ;
    let rest = mm * md + dd * md;
    assert(m * rest == d * (m4 + mmdd)) by (nonlinear_arith)
        requires
            rest == mm * (m * d) + dd * (m * d),
            mm == m * m,
            m4 == mm * mm,
            mmdd == mm * dd,
    ;
    let mrest = m * rest;
    assert(m * difference == 8real * mrest) by (nonlinear_arith)
        requires
            difference == 8real * rest,
            mrest == m * rest,
    ;
    let exact = fifth_of_fifth()(hi) - fifth_of_fifth()(lo);
    assert(exact == (h5 - l5) / 5real);
    assert(d * (5real / 9real * y1 + 8real / 9real * y2 + 5real / 9real * y3) == exact)
        by (nonlinear_arith)
        requires
            y1 + y3 == 2real * m4 + 12real * mmtt + 2real * t4,
            y2 == m4,
            mmtt == 3real / 5real * mmdd,
            t4 == 9real / 25real * d4,
            exact == (8real * (d * (m4 + mmdd)) + d * (2real * m4 + 12real * mmdd + 2real * d4))
                / 5real,
    ;
}

/// The function that raises its argument to the fifth power.
pub open spec fn fifth() -> spec_fn(real) -> real {
    |x: real| (x * x) * (x * x) * x
}

/// A sixth of the sixth power: its derivative is the fifth power.
pub open spec fn sixth_of_sixth() -> spec_fn(real) -> real {
    |x: real| (x * x) * (x * x) * (x * x) / 6real
}

/// The Gauss-Legendre estimate of the fifth power is its integral, over
/// any interval.
pub proof fn estimate_of_fifth_is_exact(node: real, lo: real, hi: real)
    requires
        node * node == 3real / 5real,
    ensures
        gauss(fifth(), node, lo, hi) == sixth_of_sixth()(hi) - sixth_of_sixth()(lo),
{
    reveal(gauss);
    let f = fifth();
    let m = (lo + hi) / 2real;
    let d = (hi - lo) / 2real;
    let t = node * d;
    let (x1, x3) = (node * d + m, -node * d + m);
    assert(x1 == m + t && x3 == m - t) by (nonlinear_arith)
        requires
            x1 == node * d + m,
            x3 == -node * d + m,
            t == node * d,
    ;
    assert(hi == m + d && lo == m - d);
    let (mm, tt, dd) = (m * m, t * t, d * d);
    let (m4, mmtt, t4) = (mm * mm, mm * tt, tt * tt);
    let (mmdd, d4) = (mm * dd, dd * dd);
    let (s1, s3, q1, q3) = squares_twice(m, t);
    let (ph, pl, h4, l4) = squares_twice(m, d);
    let (y1, y2, y3) = (f(x1), f(m), f(x3));
    assert(y1 == q1 * x1 && y3 == q3 * x3 && y2 == m4 * m);
    assert(tt == 3real / 5real * dd) by (nonlinear_arith)
        requires
            tt == (node * d) * (node * d),
            dd == d * d,
            node * node == 3real / 5real,
    ;
    assert(mmtt == 3real / 5real * mmdd && t4 == 9real / 25real * d4) by (nonlinear_arith)
        requires
            mmtt == mm * tt,
            mmdd == mm * dd,
            t4 == tt * tt,
            d4 == dd * dd,
            tt == 3real / 5real * dd,
    ;
    // The values at the two outer nodes together.
    let (sum, difference) = (q1 + q3, q1 - q3);
    assert(y1 + y3 == m * sum + t * difference) by (nonlinear_arith)
        requires
            y1 == q1 * x1,
            y3 == q3 * x3,
            x1 == m + t,
            x3 == m - t,
            sum == q1 + q3,
            difference == q1 - q3,
    ;
    let mt = m * t;
    let rest = mm * mt + tt * mt;
    assert(t * rest == m * (mmtt + t4)) by (nonlinear_arith)
        requires
            rest == mm * (m * t) + tt * (m * t),
            tt == t * t,
            mmtt == mm * tt,
            t4 == tt * tt,
    ;
    let trest = t * rest;
    assert(t * difference == 8real * trest) by (nonlinear_arith)
        requires
            difference == 8real * rest,
            trest == t * rest,
    ;
    let (a, b, c) = (m * m4, m * mmdd, m * d4);
    let (b_t, c_t) = (m * mmtt, m * t4);
    assert(b_t == 3real / 5real * b && c_t == 9real / 25real * c) by (nonlinear_arith)
        requires
            b_t == m * mmtt,
            c_t == m * t4,
            b == m * mmdd,
            c == m * d4,
            mmtt == 3real / 5real * mmdd,
            t4 == 9real / 25real * d4,
    ;
    assert(m * sum == 2real * a + 12real * b_t + 2real * c_t) by (nonlinear_arith)
        requires
            sum == 2real * m4 + 12real * mmtt + 2real * t4,
            a == m * m4,
            b_t == m * mmtt,
            c_t == m * t4,
    ;
    assert(m * (mmtt + t4) == b_t + c_t) by (nonlinear_arith)
        requires
            b_t == m * mmtt,
            c_t == m * t4,
    ;
    assert(y1 + y3 == 2real * a + 12real * b + 18real / 5real * c);
    assert(y2 == a);
    // The integral: a sixth of the difference of the sixth powers.
    let (h6, l6) = (h4 * ph, l4 * pl);
    let cross = ph * pl;
    assert(h6 - l6 == (ph - pl) * (h4 + cross + l4)) by (nonlinear_arith)
        requires
            h6 == h4 * ph,
            l6 == l4 * pl,
            h4 == ph * ph,
            l4 == pl * pl,
            cross == ph * pl,
    ;
    let md = m * d;
    let inner = 3real * m4 + 10real * mmdd + 3real * d4;
    assert(h4 + cross + l4 == inner);
    assert(md * inner == d * (3real * a + 10real * b + 3real * c)) by (nonlinear_arith)
        requires
            md == m * d,
            inner == 3real * m4 + 10real * mmdd + 3real * d4,
            a == m * m4,
            b == m * mmdd,
            c == m * d4,
    ;
    let mdi = md * inner;
    assert((ph - pl) * (h4 + cross + l4) == 4real * mdi) by (nonlinear_arith)
        requires
            ph - pl == 4real * md,
            h4 + cross + l4 == inner,
            mdi == md * inner,
    ;
    let exact = sixth_of_sixth()(hi) - sixth_of_sixth()(lo);
    assert(hi * hi == ph && lo * lo == pl);
    assert(sixth_of_sixth()(hi) == h6 / 6real);
    assert(sixth_of_sixth()(lo) == l6 / 6real);
    assert(exact == (h6 - l6) / 6real);
    assert(d * (5real / 9real * y1 + 8real / 9real * y2 + 5real / 9real * y3) == exact)
        by (nonlinear_arith)
        requires
            y1 + y3 == 2real * a + 12real * b + 18real / 5real * c,
            y2 == a,
            exact == 4real * (d * (3real * a + 10real * b + 3real * c)) / 6real,
    ;
}

/// The fourth power is integrated exactly over any interval, however far
/// the halving goes.
pub proof fn fourth_is_integrated_exactly(node: real, a: real, b: real, eps: real, depth: nat)
    requires
        node * node == 3real / 5real,
        rule(fourth(), node, a, b, eps).integral(Seq::empty(), depth) is Some,
    ensures
        rule(fourth(), node, a, b, eps).integral(Seq::empty(), depth) == Some(
            fifth_of_fifth()(b) - fifth_of_fifth()(a),
        ),
{
    let primitive = fifth_of_fifth();
    assert forall|lo: real, hi: real| #[trigger]
        gauss(fourth(), node, lo, hi) == primitive(hi) - primitive(lo) by {
        estimate_of_fourth_is_exact(node, lo, hi);
    }
    exact_estimates_add_up(fourth(), primitive, node, a, b, eps, Seq::empty(), depth);
}

/// The fifth power is integrated exactly over any interval, however far
/// the halving goes.
pub proof fn fifth_is_integrated_exactly(node: real, a: real, b: real, eps: real, depth: nat)
    requires
        node * node == 3real / 5real,
        rule(fifth(), node, a, b, eps).integral(Seq::empty(), depth) is Some,
    ensures
        rule(fifth(), node, a, b, eps).integral(Seq::empty(), depth) == Some(
            sixth_of_sixth()(b) - sixth_of_sixth()(a),
        ),
{
    let primitive = sixth_of_sixth();
    assert forall|lo: real, hi: real| #[trigger]
        gauss(fifth(), node, lo, hi) == primitive(hi) - primitive(lo) by {
        estimate_of_fifth_is_exact(node, lo, hi);
    }
    exact_estimates_add_up(fifth(), primitive, node, a, b, eps, Seq::empty(), depth);
}

} // verus!
