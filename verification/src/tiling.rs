//! The accepted cells split the interval and the tolerance.

use crate::cell::{bounds, halves_of_cell, tolerance, width_of_cell};
use crate::recursion::Rule;
use crate::subdivision::{Action, State};
use vstd::prelude::*;

verus! {

/// Whether `cells` lie side by side from `from` to `to`: the first begins at
/// `from`, each of the others begins where the one before it ends, and the
/// last ends at `to`.
pub open spec fn tiles(a: real, b: real, cells: Seq<Seq<bool>>, from: real, to: real) -> bool {
    if cells.len() == 0 {
        from == to
    } else {
        &&& bounds(a, b, cells[0]).0 == from
        &&& bounds(a, b, cells.last()).1 == to
        &&& forall|i: int|
            0 <= i < cells.len() - 1 ==> bounds(a, b, #[trigger] cells[i]).1 == bounds(
                a,
                b,
                cells[i + 1],
            ).0
    }
}

/// The sum of the tolerances of `cells`.
pub open spec fn total_tolerance(eps: real, cells: Seq<Seq<bool>>) -> real
    decreases cells.len(),
{
    if cells.len() == 0 {
        0real
    } else {
        total_tolerance(eps, cells.drop_last()) + tolerance(eps, cells.last())
    }
}

/// How far the integration has come: up to this point of `[a, b]` the
/// integrals are known.
pub open spec fn frontier<T>(a: real, b: real, at: (State<T>, Action<T>)) -> real {
    match at.1 {
        Action::Estimate => bounds(a, b, at.0.cell).0,
        Action::Add(_, _) => bounds(a, b, at.0.cell).1,
        Action::Finish(_) => b,
    }
}

impl<T> Rule<T> {
    /// The cells whose estimates are accepted in the first `turns` turns
    /// from `at`, in that order.
    pub open spec fn accepted_from(self, at: (State<T>, Action<T>), turns: nat) -> Seq<Seq<bool>>
        decreases turns,
    {
        if turns == 0 {
            Seq::empty()
        } else {
            let rest = self.accepted_from(self.turn(at), (turns - 1) as nat);
            if at.1 is Estimate && (self.accepts)(at.0.cell) {
                seq![at.0.cell] + rest
            } else {
                rest
            }
        }
    }

    /// The cells whose estimates are accepted in the first `turns` turns
    /// from the start, in that order.
    pub open spec fn accepted(self, turns: nat) -> Seq<Seq<bool>> {
        self.accepted_from((State::start(), Action::Estimate), turns)
    }

    /// A turn moves the frontier over the cell that it accepts, and not at
    /// all where it accepts none.
    proof fn turn_moves_frontier(self, a: real, b: real, at: (State<T>, Action<T>))
        ensures
            frontier(a, b, self.turn(at)) == if at.1 is Estimate && (self.accepts)(at.0.cell) {
                bounds(a, b, at.0.cell).1
            } else {
                frontier(a, b, at)
            },
    {
        let cell = at.0.cell;
        halves_of_cell(a, b, 0real, cell);
        if cell.len() > 0 {
            assert(cell.drop_last().push(cell.last()) =~= cell);
            halves_of_cell(a, b, 0real, cell.drop_last());
        }
    }

    /// The cells accepted on the way lie side by side from the frontier at
    /// which the run begins to the frontier at which it ends.
    proof fn tiling_from(self, a: real, b: real, at: (State<T>, Action<T>), turns: nat)
        ensures
            tiles(
                a,
                b,
                self.accepted_from(at, turns),
                frontier(a, b, at),
                frontier(a, b, self.run_from(at, turns)),
            ),
        decreases turns,
    {
        if turns > 0 {
            self.turn_moves_frontier(a, b, at);
            self.tiling_from(a, b, self.turn(at), (turns - 1) as nat);
            let rest = self.accepted_from(self.turn(at), (turns - 1) as nat);
            if at.1 is Estimate && (self.accepts)(at.0.cell) {
                let cells = seq![at.0.cell] + rest;
                assert forall|i: int| 0 <= i < cells.len() - 1 implies bounds(
                    a,
                    b,
                    #[trigger] cells[i],
                ).1 == bounds(a, b, cells[i + 1]).0 by {
                    if i > 0 {
                        assert(cells[i] == rest[i - 1]);
                        assert(cells[i + 1] == rest[i - 1 + 1]);
                    }
                }
            }
        }
    }

    /// When the integration is finished, the cells whose estimates were
    /// accepted lie side by side from one end of the interval to the other.
    pub proof fn accepted_cells_tile(self, a: real, b: real, turns: nat)
        requires
            self.run(turns).1 is Finish,
        ensures
            self.accepted(turns).len() > 0,
            tiles(a, b, self.accepted(turns), a, b),
    {
        self.tiling_from(a, b, (State::start(), Action::Estimate), turns);
        self.tiling_from(0real, 1real, (State::start(), Action::Estimate), turns);
    }
}

/// Cells that lie side by side from `from` to `to`, in an interval as wide
/// as the tolerance is large, have tolerances that add up to `to - from`.
proof fn tolerances_of_tiles(eps: real, cells: Seq<Seq<bool>>, from: real, to: real)
    requires
        tiles(0real, eps, cells, from, to),
    ensures
        total_tolerance(eps, cells) == to - from,
    decreases cells.len(),
{
    if cells.len() > 0 {
        let last = cells.last();
        let before = cells.drop_last();
        width_of_cell(0real, eps, last);
        if before.len() == 0 {
            tolerances_of_tiles(eps, before, from, from);
        } else {
            assert(before.last() == cells[cells.len() - 2]);
            assert forall|i: int| 0 <= i < before.len() - 1 implies bounds(
                0real,
                eps,
                #[trigger] before[i],
            ).1 == bounds(0real, eps, before[i + 1]).0 by {
                assert(before[i] == cells[i]);
                assert(before[i + 1] == cells[i + 1]);
            }
            tolerances_of_tiles(eps, before, from, bounds(0real, eps, last).0);
        }
    }
}

impl<T> Rule<T> {
    /// When the integration is finished, the tolerances of the cells whose
    /// estimates were accepted add up to the tolerance of the whole interval.
    pub proof fn tolerances_add_up(self, eps: real, turns: nat)
        requires
            self.run(turns).1 is Finish,
        ensures
            total_tolerance(eps, self.accepted(turns)) == eps,
    {
        self.accepted_cells_tile(0real, eps, turns);
        tolerances_of_tiles(eps, self.accepted(turns), 0real, eps);
    }
}

} // verus!
