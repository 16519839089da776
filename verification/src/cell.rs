//! What a cell stands for: a part of the interval and a share of the tolerance.

use vstd::prelude::*;

verus! {

/// The lower and the upper end of `cell` where the whole interval is
/// `[a, b]`: each halving cuts at the midpoint.
pub open spec fn bounds(a: real, b: real, cell: Seq<bool>) -> (real, real)
    decreases cell.len(),
{
    if cell.len() == 0 {
        (a, b)
    } else {
        let (lo, hi) = bounds(a, b, cell.drop_last());
        let mid = (lo + hi) / 2real;
        if cell.last() {
            (mid, hi)
        } else {
            (lo, mid)
        }
    }
}

/// The tolerance of `cell` where that of the whole interval is `eps`: each
/// halving of the interval halves the tolerance.
pub open spec fn tolerance(eps: real, cell: Seq<bool>) -> real
    decreases cell.len(),
{
    if cell.len() == 0 {
        eps
    } else {
        tolerance(eps, cell.drop_last()) / 2real
    }
}

/// The two halves of a cell meet at its midpoint and share its ends and its
/// tolerance.
pub proof fn halves_of_cell(a: real, b: real, eps: real, cell: Seq<bool>)
    ensures
        bounds(a, b, cell.push(false)).0 == bounds(a, b, cell).0,
        bounds(a, b, cell.push(false)).1 == (bounds(a, b, cell).0 + bounds(a, b, cell).1) / 2real,
        bounds(a, b, cell.push(true)).0 == (bounds(a, b, cell).0 + bounds(a, b, cell).1) / 2real,
        bounds(a, b, cell.push(true)).1 == bounds(a, b, cell).1,
        tolerance(eps, cell.push(false)) == tolerance(eps, cell) / 2real,
        tolerance(eps, cell.push(true)) == tolerance(eps, cell) / 2real,
{
    assert(cell.push(false).drop_last() =~= cell);
    assert(cell.push(true).drop_last() =~= cell);
}

/// A cell is as wide as the whole interval, halved once per halving.
pub proof fn width_of_cell(a: real, b: real, cell: Seq<bool>)
    ensures
        bounds(a, b, cell).1 - bounds(a, b, cell).0 == tolerance(b - a, cell),
    decreases cell.len(),
{
    if cell.len() > 0 {
        width_of_cell(a, b, cell.drop_last());
    }
}

/// Whether `r` holds the ends and the tolerance of one half of the cell
/// with the ends and the tolerance `outer`, the upper half if `upper`: `cut`
/// is what `mid` has given for the two ends, and the tolerance is what
/// `half` has given.
pub open spec fn halved<T, M: Fn(T, T) -> T, H: Fn(T) -> T>(
    mid: M,
    half: H,
    upper: bool,
    outer: (T, T, T),
    cut: T,
    r: (T, T, T),
) -> bool {
    &&& mid.ensures((outer.0, outer.1), cut)
    &&& half.ensures((outer.2,), r.2)
    &&& (r.0, r.1) == if upper {
        (cut, outer.1)
    } else {
        (outer.0, cut)
    }
}

/// Whether `r` holds the lower end, the upper end and the tolerance of
/// `cell`, as the caller's arithmetic gives them: `mid` has cut at every
/// halving, `half` has halved the tolerance, and the whole interval is
/// `[a, b]` with the tolerance `eps`.
pub open spec fn located<T, M: Fn(T, T) -> T, H: Fn(T) -> T>(
    mid: M,
    half: H,
    a: T,
    b: T,
    eps: T,
    cell: Seq<bool>,
    r: (T, T, T),
) -> bool
    decreases cell.len(),
{
    if cell.len() == 0 {
        r == (a, b, eps)
    } else {
        exists|outer: (T, T, T), cut: T|
            {
                &&& located(mid, half, a, b, eps, cell.drop_last(), outer)
                &&& #[trigger] halved(mid, half, cell.last(), outer, cut, r)
            }
    }
}

/// Walks from the whole interval `[a, b]` with the tolerance `eps` down to
/// `cell`: at each halving `mid` gives the cut between the two ends, the
/// lower or the upper end moves there, and `half` halves the tolerance.
/// Returns the lower end, the upper end and the tolerance of `cell`.
pub fn locate<T: Copy, M: Fn(T, T) -> T, H: Fn(T) -> T>(
    cell: &Vec<bool>,
    a: T,
    b: T,
    eps: T,
    mid: &M,
    half: &H,
) -> (r: (T, T, T))
    requires
        forall|lo: T, hi: T| mid.requires((lo, hi)),
        forall|e: T| half.requires((e,)),
    ensures
        located(*mid, *half, a, b, eps, cell@, r),
{
    let mut lo = a;
    let mut hi = b;
    let mut tolerance = eps;
    let mut i: usize = 0;
    while i < cell.len()
        invariant
            i <= cell.len(),
            forall|lo: T, hi: T| mid.requires((lo, hi)),
            forall|e: T| half.requires((e,)),
            located(*mid, *half, a, b, eps, cell@.take(i as int), (lo, hi, tolerance)),
        decreases cell.len() - i,
    {
        let ghost outer = (lo, hi, tolerance);
        let cut = mid(lo, hi);
        if cell[i] {
            lo = cut;
        } else {
            hi = cut;
        }
        tolerance = half(tolerance);
        proof {
            let inner = cell@.take(i + 1);
            assert(inner.drop_last() =~= cell@.take(i as int));
            assert(inner.last() == cell@[i as int]);
            assert(located(*mid, *half, a, b, eps, inner.drop_last(), outer));
            assert(halved(*mid, *half, inner.last(), outer, cut, (lo, hi, tolerance)));
        }
        i += 1;
    }
    assert(cell@.take(i as int) =~= cell@);
    (lo, hi, tolerance)
}

/// Where the caller's arithmetic is exact, the walk ends at the bounds and
/// the tolerance of the cell: `value` reads the caller's numbers as reals,
/// every cut that `mid` can give is the midpoint, and every result that
/// `half` can give is the half.
pub proof fn located_exactly<T, M: Fn(T, T) -> T, H: Fn(T) -> T>(
    mid: M,
    half: H,
    value: spec_fn(T) -> real,
    a: T,
    b: T,
    eps: T,
    cell: Seq<bool>,
    r: (T, T, T),
)
    requires
        forall|lo: T, hi: T, cut: T| #[trigger]
            mid.ensures((lo, hi), cut) ==> value(cut) == (value(lo) + value(hi)) / 2real,
        forall|e: T, h: T| #[trigger] half.ensures((e,), h) ==> value(h) == value(e) / 2real,
        located(mid, half, a, b, eps, cell, r),
    ensures
        value(r.0) == bounds(value(a), value(b), cell).0,
        value(r.1) == bounds(value(a), value(b), cell).1,
        value(r.2) == tolerance(value(eps), cell),
    decreases cell.len(),
{
    if cell.len() > 0 {
        let (outer, cut) = choose|outer: (T, T, T), cut: T|
            {
                &&& located(mid, half, a, b, eps, cell.drop_last(), outer)
                &&& #[trigger] halved(mid, half, cell.last(), outer, cut, r)
            };
        located_exactly(mid, half, value, a, b, eps, cell.drop_last(), outer);
    }
}

} // verus!
