//! Adaptive quadrature by bisection.
//!
//! An adaptive rule estimates the integral of a function over an interval,
//! judges the estimate against a tolerance, and either accepts it or halves
//! the interval and the tolerance and integrates both halves, returning the
//! sum of the two results.
//!
//! The executable part of this crate is the subdivision itself: which part
//! of the interval is estimated next, where it lies, which results are added
//! and in which order, and when the integration is finished. The numbers
//! are the caller's, who estimates, judges, cuts and adds.
//!
//! The rule of estimate and verdict, three-point Gauss-Legendre against
//! Simpson, is stated over the real numbers, and what it gives for
//! polynomials up to the fifth degree is proved there.

pub mod beyond;
pub mod cell;
pub mod higher;
pub mod polynomial;
pub mod quadrature;
pub mod quintic;
pub mod recursion;
pub mod subdivision;
pub mod tiling;
