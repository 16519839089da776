//! Polynomials up to the fifth degree, which the Gauss-Legendre estimate
//! integrates exactly.

use crate::higher::{estimate_of_fifth_is_exact, estimate_of_fourth_is_exact, fifth, fourth};
use crate::polynomial::{
    cube, estimates_of_cube_are_exact, estimates_of_line_are_exact,
    estimates_of_square_are_exact, identity, one, square,
};
use crate::quadrature::{equal_estimates_are_accepted, exact_estimates_add_up, gauss, rule, simpson};
use vstd::prelude::*;

verus! {

/// The polynomial `c0 + c1 x + c2 x^2 + c3 x^3 + c4 x^4 + c5 x^5`.
pub struct Quintic {
    pub c0: real,
    pub c1: real,
    pub c2: real,
    pub c3: real,
    pub c4: real,
    pub c5: real,
}

impl Quintic {
    /// The polynomial as a function.
    pub open spec fn function(self) -> spec_fn(real) -> real {
        |x: real|
            self.c0 + self.c1 * x + self.c2 * (x * x) + self.c3 * (x * x * x) + self.c4 * ((x * x)
                * (x * x)) + self.c5 * ((x * x) * (x * x) * x)
    }

    /// The function that is zero at zero and whose derivative the
    /// polynomial is: the integral of the polynomial from `lo` to `hi` is the
    /// difference of its values at `hi` and at `lo`.
    pub open spec fn primitive(self) -> spec_fn(real) -> real {
        |x: real|
            self.c0 * x + self.c1 * (x * x / 2real) + self.c2 * (x * x * x / 3real) + self.c3 * (x
                * x * x * x / 4real) + self.c4 * ((x * x) * (x * x) * x / 5real) + self.c5 * ((x
                * x) * (x * x) * (x * x) / 6real)
    }
}

/// What the estimate of `f` is made of.
proof fn gauss_unfolded(f: spec_fn(real) -> real, node: real, lo: real, hi: real)
    ensures
        gauss(f, node, lo, hi) == (hi - lo) / 2real * (5real / 9real * f(
            node * ((hi - lo) / 2real) + (lo + hi) / 2real,
        ) + 8real / 9real * f((lo + hi) / 2real) + 5real / 9real * f(
            -node * ((hi - lo) / 2real) + (lo + hi) / 2real,
        )),
{
    reveal(gauss);
}

/// A factor on a weighted sum of three values goes to each of them.
proof fn weigh(c: real, v1: real, v2: real, v3: real)
    ensures
        c * (5real / 9real * v1 + 8real / 9real * v2 + 5real / 9real * v3) == 5real / 9real * (c
            * v1) + 8real / 9real * (c * v2) + 5real / 9real * (c * v3),
{
    assert(c * (5real / 9real * v1 + 8real / 9real * v2 + 5real / 9real * v3) == 5real / 9real * (c
        * v1) + 8real / 9real * (c * v2) + 5real / 9real * (c * v3)) by (nonlinear_arith);
}

/// Two factors change places.
proof fn change_places(d: real, c: real, w: real)
    ensures
        d * (c * w) == c * (d * w),
{
    assert(d * (c * w) == c * (d * w)) by (nonlinear_arith);
}

/// A factor on a sum goes to both terms.
proof fn spread(d: real, a: real, b: real)
    ensures
        d * (a + b) == d * a + d * b,
{
    assert(d * (a + b) == d * a + d * b) by (nonlinear_arith);
}

/// A factor on a difference.
proof fn part(c: real, h: real, l: real)
    ensures
        c * h - c * l == c * (h - l),
{
    assert(c * h - c * l == c * (h - l)) by (nonlinear_arith);
}

impl Quintic {
    /// The Gauss-Legendre estimate of a polynomial up to the fifth degree is
    /// its integral, over any interval.
    pub proof fn estimate_is_exact(self, node: real, lo: real, hi: real)
        requires
            node * node == 3real / 5real,
        ensures
            gauss(self.function(), node, lo, hi) == (self.primitive())(hi) - (self.primitive())(lo),
    {
        let h = self.function();
        let m = (lo + hi) / 2real;
        let d = (hi - lo) / 2real;
        let (x1, x3) = (node * d + m, -node * d + m);
        let (c0, c1, c2, c3, c4, c5) = (self.c0, self.c1, self.c2, self.c3, self.c4, self.c5);
        estimates_of_line_are_exact(node, lo, hi);
        estimates_of_square_are_exact(node, lo, hi);
        estimates_of_cube_are_exact(node, lo, hi);
        estimate_of_fourth_is_exact(node, lo, hi);
        estimate_of_fifth_is_exact(node, lo, hi);
        gauss_unfolded(h, node, lo, hi);
        gauss_unfolded(identity(), node, lo, hi);
        gauss_unfolded(square(), node, lo, hi);
        gauss_unfolded(cube(), node, lo, hi);
        gauss_unfolded(fourth(), node, lo, hi);
        gauss_unfolded(fifth(), node, lo, hi);
        let (p11, p12, p13) = (identity()(x1), identity()(m), identity()(x3));
        let w1 = 5real / 9real * p11 + 8real / 9real * p12 + 5real / 9real * p13;
        let g1 = d * w1;
        assert(g1 == gauss(identity(), node, lo, hi));
        let (t11, t12, t13) = (c1 * p11, c1 * p12, c1 * p13);
        let cw1 = c1 * w1;
        weigh(c1, p11, p12, p13);
        let cg1 = c1 * g1;
        change_places(d, c1, w1);
        let dcw1 = d * cw1;
        assert(dcw1 == cg1);
        let (p21, p22, p23) = (square()(x1), square()(m), square()(x3));
        let w2 = 5real / 9real * p21 + 8real / 9real * p22 + 5real / 9real * p23;
        let g2 = d * w2;
        assert(g2 == gauss(square(), node, lo, hi));
        let (t21, t22, t23) = (c2 * p21, c2 * p22, c2 * p23);
        let cw2 = c2 * w2;
        weigh(c2, p21, p22, p23);
        let cg2 = c2 * g2;
        change_places(d, c2, w2);
        let dcw2 = d * cw2;
        assert(dcw2 == cg2);
        let (p31, p32, p33) = (cube()(x1), cube()(m), cube()(x3));
        let w3 = 5real / 9real * p31 + 8real / 9real * p32 + 5real / 9real * p33;
        let g3 = d * w3;
        assert(g3 == gauss(cube(), node, lo, hi));
        let (t31, t32, t33) = (c3 * p31, c3 * p32, c3 * p33);
        let cw3 = c3 * w3;
        weigh(c3, p31, p32, p33);
        let cg3 = c3 * g3;
        change_places(d, c3, w3);
        let dcw3 = d * cw3;
        assert(dcw3 == cg3);
        let (p41, p42, p43) = (fourth()(x1), fourth()(m), fourth()(x3));
        let w4 = 5real / 9real * p41 + 8real / 9real * p42 + 5real / 9real * p43;
        let g4 = d * w4;
        assert(g4 == gauss(fourth(), node, lo, hi));
        let (t41, t42, t43) = (c4 * p41, c4 * p42, c4 * p43);
        let cw4 = c4 * w4;
        weigh(c4, p41, p42, p43);
        let cg4 = c4 * g4;
        change_places(d, c4, w4);
        let dcw4 = d * cw4;
        assert(dcw4 == cg4);
        let (p51, p52, p53) = (fifth()(x1), fifth()(m), fifth()(x3));
        let w5 = 5real / 9real * p51 + 8real / 9real * p52 + 5real / 9real * p53;
        let g5 = d * w5;
        assert(g5 == gauss(fifth(), node, lo, hi));
        let (t51, t52, t53) = (c5 * p51, c5 * p52, c5 * p53);
        let cw5 = c5 * w5;
        weigh(c5, p51, p52, p53);
        let cg5 = c5 * g5;
        change_places(d, c5, w5);
        let dcw5 = d * cw5;
        assert(dcw5 == cg5);
        let (y1, y2, y3) = (h(x1), h(m), h(x3));
        assert(y1 == c0 + t11 + t21 + t31 + t41 + t51);
        assert(y2 == c0 + t12 + t22 + t32 + t42 + t52);
        assert(y3 == c0 + t13 + t23 + t33 + t43 + t53);
        let s = 5real / 9real * y1 + 8real / 9real * y2 + 5real / 9real * y3;
        let u0 = 2real * c0;
        let u1 = u0 + cw1;
        let u2 = u1 + cw2;
        let u3 = u2 + cw3;
        let u4 = u3 + cw4;
        let u5 = u4 + cw5;
        assert(s == u5) by (nonlinear_arith)
            requires
                s == 5real / 9real * y1 + 8real / 9real * y2 + 5real / 9real * y3,
                y1 == c0 + t11 + t21 + t31 + t41 + t51,
                y2 == c0 + t12 + t22 + t32 + t42 + t52,
                y3 == c0 + t13 + t23 + t33 + t43 + t53,
                cw1 == 5real / 9real * t11 + 8real / 9real * t12 + 5real / 9real * t13,
                cw2 == 5real / 9real * t21 + 8real / 9real * t22 + 5real / 9real * t23,
                cw3 == 5real / 9real * t31 + 8real / 9real * t32 + 5real / 9real * t33,
                cw4 == 5real / 9real * t41 + 8real / 9real * t42 + 5real / 9real * t43,
                cw5 == 5real / 9real * t51 + 8real / 9real * t52 + 5real / 9real * t53,
                u5 == 2real * c0 + cw1 + cw2 + cw3 + cw4 + cw5,
        ;
        spread(d, u0, cw1);
        let du1 = d * u1;
        spread(d, u1, cw2);
        let du2 = d * u2;
        spread(d, u2, cw3);
        let du3 = d * u3;
        spread(d, u3, cw4);
        let du4 = d * u4;
        spread(d, u4, cw5);
        let du5 = d * u5;
        let du0 = d * u0;
        let estimate = d * s;
        assert(estimate == du5);
        assert(estimate == du0 + cg1 + cg2 + cg3 + cg4 + cg5) by (nonlinear_arith)
            requires
                estimate == du5,
                du1 == du0 + dcw1,
                dcw1 == cg1,
                du2 == du1 + dcw2,
                dcw2 == cg2,
                du3 == du2 + dcw3,
                dcw3 == cg3,
                du4 == du3 + dcw4,
                dcw4 == cg4,
                du5 == du4 + dcw5,
                dcw5 == cg5,
        ;
        assert(gauss(h, node, lo, hi) == estimate);
        // The integral, term by term.
        let r = self.primitive();
        let (rh1, rl1) = ((hi * hi / 2real), (lo * lo / 2real));
        assert(rh1 - rl1 == g1);
        part(c1, rh1, rl1);
        let (ch1, cl1) = (c1 * rh1, c1 * rl1);
        assert(ch1 - cl1 == cg1);
        let (rh2, rl2) = ((hi * hi * hi / 3real), (lo * lo * lo / 3real));
        assert(rh2 - rl2 == g2);
        part(c2, rh2, rl2);
        let (ch2, cl2) = (c2 * rh2, c2 * rl2);
        assert(ch2 - cl2 == cg2);
        let (rh3, rl3) = ((hi * hi * hi * hi / 4real), (lo * lo * lo * lo / 4real));
        assert(rh3 - rl3 == g3);
        part(c3, rh3, rl3);
        let (ch3, cl3) = (c3 * rh3, c3 * rl3);
        assert(ch3 - cl3 == cg3);
        let (rh4, rl4) = (((hi * hi) * (hi * hi) * hi / 5real), ((lo * lo) * (lo * lo) * lo / 5real));
        assert(rh4 - rl4 == g4);
        part(c4, rh4, rl4);
        let (ch4, cl4) = (c4 * rh4, c4 * rl4);
        assert(ch4 - cl4 == cg4);
        let (rh5, rl5) = (((hi * hi) * (hi * hi) * (hi * hi) / 6real), ((lo * lo) * (lo * lo) * (lo * lo) / 6real));
        assert(rh5 - rl5 == g5);
        part(c5, rh5, rl5);
        let (ch5, cl5) = (c5 * rh5, c5 * rl5);
        assert(ch5 - cl5 == cg5);
        let (ch0, cl0) = (c0 * hi, c0 * lo);
        assert(ch0 - cl0 == du0) by (nonlinear_arith)
            requires
                ch0 == c0 * hi,
                cl0 == c0 * lo,
                du0 == d * (2real * c0),
                hi - lo == 2real * d,
        ;
        let exact = r(hi) - r(lo);
        assert(r(hi) == ch0 + ch1 + ch2 + ch3 + ch4 + ch5);
        assert(r(lo) == cl0 + cl1 + cl2 + cl3 + cl4 + cl5);
        assert(exact == du0 + cg1 + cg2 + cg3 + cg4 + cg5) by (nonlinear_arith)
            requires
                exact == (ch0 + ch1 + ch2 + ch3 + ch4 + ch5) - (cl0 + cl1 + cl2 + cl3 + cl4 + cl5),
                ch0 - cl0 == du0,
                ch1 - cl1 == cg1,
                ch2 - cl2 == cg2,
                ch3 - cl3 == cg3,
                ch4 - cl4 == cg4,
                ch5 - cl5 == cg5,
        ;
    }

    /// A polynomial up to the fifth degree is integrated exactly over any
    /// interval, however far the halving goes.
    pub proof fn is_integrated_exactly(self, node: real, a: real, b: real, eps: real, depth: nat)
        requires
            node * node == 3real / 5real,
            rule(self.function(), node, a, b, eps).integral(Seq::empty(), depth) is Some,
        ensures
            rule(self.function(), node, a, b, eps).integral(Seq::empty(), depth) == Some(
                (self.primitive())(b) - (self.primitive())(a),
            ),
    {
        let primitive = self.primitive();
        assert forall|lo: real, hi: real| #[trigger]
            gauss(self.function(), node, lo, hi) == primitive(hi) - primitive(lo) by {
            self.estimate_is_exact(node, lo, hi);
        }
        exact_estimates_add_up(self.function(), primitive, node, a, b, eps, Seq::empty(), depth);
    }
}

/// What Simpson's estimate of `f` is made of.
proof fn simpson_unfolded(f: spec_fn(real) -> real, lo: real, hi: real)
    ensures
        simpson(f, lo, hi) == (hi - lo) / 2real * (f(lo) + 4real * f((lo + hi) / 2real) + f(hi))
            / 3real,
{
    reveal(simpson);
}

/// A factor on Simpson's sum of three values goes to each of them.
proof fn weigh_thirds(c: real, v1: real, v2: real, v3: real)
    ensures
        c * (v1 + 4real * v2 + v3) / 3real == 1real / 3real * (c * v1) + 4real / 3real * (c * v2)
            + 1real / 3real * (c * v3),
{
    assert(c * (v1 + 4real * v2 + v3) / 3real == 1real / 3real * (c * v1) + 4real / 3real * (c
        * v2) + 1real / 3real * (c * v3)) by (nonlinear_arith);
}

/// Nothing times anything is nothing.
proof fn nothing(c: real, p: real)
    requires
        c == 0real,
    ensures
        c * p == 0real,
{
    assert(c * p == 0real) by (nonlinear_arith)
        requires
            c == 0real,
    ;
}

impl Quintic {
    /// Simpson's estimate of a polynomial up to the third degree is its
    /// integral, over any interval.
    pub proof fn simpson_of_cubic_is_exact(self, node: real, lo: real, hi: real)
        requires
            node * node == 3real / 5real,
            self.c4 == 0real,
            self.c5 == 0real,
        ensures
            simpson(self.function(), lo, hi) == (self.primitive())(hi) - (self.primitive())(lo),
    {
        let h = self.function();
        let m = (lo + hi) / 2real;
        let d = (hi - lo) / 2real;
        let (c0, c1, c2, c3, c4, c5) = (self.c0, self.c1, self.c2, self.c3, self.c4, self.c5);
        estimates_of_line_are_exact(node, lo, hi);
        estimates_of_square_are_exact(node, lo, hi);
        estimates_of_cube_are_exact(node, lo, hi);
        simpson_unfolded(h, lo, hi);
        simpson_unfolded(identity(), lo, hi);
        simpson_unfolded(square(), lo, hi);
        simpson_unfolded(cube(), lo, hi);
        let (p11, p12, p13) = (identity()(lo), identity()(m), identity()(hi));
        let g1 = d * (p11 + 4real * p12 + p13) / 3real;
        assert(g1 == simpson(identity(), lo, hi));
        let (q11, q12, q13) = (d * p11, d * p12, d * p13);
        weigh_thirds(d, p11, p12, p13);
        let (t11, t12, t13) = (c1 * p11, c1 * p12, c1 * p13);
        change_places(d, c1, p11);
        change_places(d, c1, p12);
        change_places(d, c1, p13);
        let (e11, e12, e13) = (c1 * q11, c1 * q12, c1 * q13);
        weigh_thirds(c1, q11, q12, q13);
        let cg1 = c1 * g1;
        assert(g1 == (q11 + 4real * q12 + q13) / 3real);
        assert(cg1 == 1real / 3real * e11 + 4real / 3real * e12 + 1real / 3real * e13) by {
            assert(g1 * 3real == q11 + 4real * q12 + q13);
            assert(c1 * g1 == c1 * (q11 + 4real * q12 + q13) / 3real) by (nonlinear_arith)
                requires
                    g1 == (q11 + 4real * q12 + q13) / 3real,
            ;
        }
        let (dt11, dt12, dt13) = (d * t11, d * t12, d * t13);
        assert(dt11 == e11 && dt12 == e12 && dt13 == e13);
        let (p21, p22, p23) = (square()(lo), square()(m), square()(hi));
        let g2 = d * (p21 + 4real * p22 + p23) / 3real;
        assert(g2 == simpson(square(), lo, hi));
        let (q21, q22, q23) = (d * p21, d * p22, d * p23);
        weigh_thirds(d, p21, p22, p23);
        let (t21, t22, t23) = (c2 * p21, c2 * p22, c2 * p23);
        change_places(d, c2, p21);
        change_places(d, c2, p22);
        change_places(d, c2, p23);
        let (e21, e22, e23) = (c2 * q21, c2 * q22, c2 * q23);
        weigh_thirds(c2, q21, q22, q23);
        let cg2 = c2 * g2;
        assert(g2 == (q21 + 4real * q22 + q23) / 3real);
        assert(cg2 == 1real / 3real * e21 + 4real / 3real * e22 + 1real / 3real * e23) by {
            assert(g2 * 3real == q21 + 4real * q22 + q23);
            assert(c2 * g2 == c2 * (q21 + 4real * q22 + q23) / 3real) by (nonlinear_arith)
                requires
                    g2 == (q21 + 4real * q22 + q23) / 3real,
            ;
        }
        let (dt21, dt22, dt23) = (d * t21, d * t22, d * t23);
        assert(dt21 == e21 && dt22 == e22 && dt23 == e23);
        let (p31, p32, p33) = (cube()(lo), cube()(m), cube()(hi));
        let g3 = d * (p31 + 4real * p32 + p33) / 3real;
        assert(g3 == simpson(cube(), lo, hi));
        let (q31, q32, q33) = (d * p31, d * p32, d * p33);
        weigh_thirds(d, p31, p32, p33);
        let (t31, t32, t33) = (c3 * p31, c3 * p32, c3 * p33);
        change_places(d, c3, p31);
        change_places(d, c3, p32);
        change_places(d, c3, p33);
        let (e31, e32, e33) = (c3 * q31, c3 * q32, c3 * q33);
        weigh_thirds(c3, q31, q32, q33);
        let cg3 = c3 * g3;
        assert(g3 == (q31 + 4real * q32 + q33) / 3real);
        assert(cg3 == 1real / 3real * e31 + 4real / 3real * e32 + 1real / 3real * e33) by {
            assert(g3 * 3real == q31 + 4real * q32 + q33);
            assert(c3 * g3 == c3 * (q31 + 4real * q32 + q33) / 3real) by (nonlinear_arith)
                requires
                    g3 == (q31 + 4real * q32 + q33) / 3real,
            ;
        }
        let (dt31, dt32, dt33) = (d * t31, d * t32, d * t33);
        assert(dt31 == e31 && dt32 == e32 && dt33 == e33);
        let (y1, y2, y3) = (h(lo), h(m), h(hi));
        nothing(c4, (lo * lo) * (lo * lo));
        nothing(c4, (m * m) * (m * m));
        nothing(c4, (hi * hi) * (hi * hi));
        nothing(c5, (lo * lo) * (lo * lo) * lo);
        nothing(c5, (m * m) * (m * m) * m);
        nothing(c5, (hi * hi) * (hi * hi) * hi);
        assert(y1 == c0 + t11 + t21 + t31);
        let u1 = c0 + t11 + t21;
        let v1 = c0 + t11;
        spread(d, u1, t31);
        spread(d, v1, t21);
        spread(d, c0, t11);
        let dy1 = d * y1;
        let dc = d * c0;
        assert(dy1 == dc + e11 + e21 + e31);
        assert(y2 == c0 + t12 + t22 + t32);
        let u2 = c0 + t12 + t22;
        let v2 = c0 + t12;
        spread(d, u2, t32);
        spread(d, v2, t22);
        spread(d, c0, t12);
        let dy2 = d * y2;
        let dc = d * c0;
        assert(dy2 == dc + e12 + e22 + e32);
        assert(y3 == c0 + t13 + t23 + t33);
        let u3 = c0 + t13 + t23;
        let v3 = c0 + t13;
        spread(d, u3, t33);
        spread(d, v3, t23);
        spread(d, c0, t13);
        let dy3 = d * y3;
        let dc = d * c0;
        assert(dy3 == dc + e13 + e23 + e33);
        weigh_thirds(d, y1, y2, y3);
        let dc = d * c0;
        let estimate = d * (y1 + 4real * y2 + y3) / 3real;
        assert(simpson(h, lo, hi) == estimate);
        assert(estimate == 2real * dc + cg1 + cg2 + cg3) by (nonlinear_arith)
            requires
                estimate == 1real / 3real * dy1 + 4real / 3real * dy2 + 1real / 3real * dy3,
                dy1 == dc + e11 + e21 + e31,
                dy2 == dc + e12 + e22 + e32,
                dy3 == dc + e13 + e23 + e33,
                cg1 == 1real / 3real * e11 + 4real / 3real * e12 + 1real / 3real * e13,
                cg2 == 1real / 3real * e21 + 4real / 3real * e22 + 1real / 3real * e23,
                cg3 == 1real / 3real * e31 + 4real / 3real * e32 + 1real / 3real * e33,
        ;
        // The integral, term by term.
        let r = self.primitive();
        let (rh1, rl1) = ((hi * hi / 2real), (lo * lo / 2real));
        assert(rh1 - rl1 == g1);
        part(c1, rh1, rl1);
        let (ch1, cl1) = (c1 * rh1, c1 * rl1);
        assert(ch1 - cl1 == cg1);
        let (rh2, rl2) = ((hi * hi * hi / 3real), (lo * lo * lo / 3real));
        assert(rh2 - rl2 == g2);
        part(c2, rh2, rl2);
        let (ch2, cl2) = (c2 * rh2, c2 * rl2);
        assert(ch2 - cl2 == cg2);
        let (rh3, rl3) = ((hi * hi * hi * hi / 4real), (lo * lo * lo * lo / 4real));
        assert(rh3 - rl3 == g3);
        part(c3, rh3, rl3);
        let (ch3, cl3) = (c3 * rh3, c3 * rl3);
        assert(ch3 - cl3 == cg3);
        nothing(c4, (hi * hi) * (hi * hi) * hi / 5real);
        nothing(c4, (lo * lo) * (lo * lo) * lo / 5real);
        nothing(c5, (hi * hi) * (hi * hi) * (hi * hi) / 6real);
        nothing(c5, (lo * lo) * (lo * lo) * (lo * lo) / 6real);
        let (ch0, cl0) = (c0 * hi, c0 * lo);
        assert(ch0 - cl0 == 2real * dc) by (nonlinear_arith)
            requires
                ch0 == c0 * hi,
                cl0 == c0 * lo,
                dc == d * c0,
                hi - lo == 2real * d,
        ;
        let exact = r(hi) - r(lo);
        assert(r(hi) == ch0 + ch1 + ch2 + ch3);
        assert(r(lo) == cl0 + cl1 + cl2 + cl3);
        assert(exact == 2real * dc + cg1 + cg2 + cg3) by (nonlinear_arith)
            requires
                exact == (ch0 + ch1 + ch2 + ch3) - (cl0 + cl1 + cl2 + cl3),
                ch0 - cl0 == 2real * dc,
                ch1 - cl1 == cg1,
                ch2 - cl2 == cg2,
                ch3 - cl3 == cg3,
        ;
    }

    /// A polynomial up to the third degree is integrated exactly over any
    /// interval, whatever the tolerance, and no halving is needed.
    pub proof fn cubic_is_accepted_at_once(self, node: real, a: real, b: real, eps: real)
        requires
            node * node == 3real / 5real,
            self.c4 == 0real,
            self.c5 == 0real,
            eps >= 0real,
        ensures
            rule(self.function(), node, a, b, eps).integral(Seq::empty(), 0) == Some(
                (self.primitive())(b) - (self.primitive())(a),
            ),
    {
        self.estimate_is_exact(node, a, b);
        self.simpson_of_cubic_is_exact(node, a, b);
        equal_estimates_are_accepted(self.function(), node, a, b, eps);
    }
}

} // verus!
