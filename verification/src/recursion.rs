//! The subdivision as a recursion, and the proof that the machine computes it.

use crate::subdivision::{uppers_of_half, Action, Event, Phase, State};
use vstd::prelude::*;

verus! {

/// The caller's arithmetic, as far as a subdivision depends on it.
#[verifier::reject_recursive_types(T)]
pub struct Rule<T> {
    /// Whether the estimate over a cell is within the tolerance of that cell.
    pub accepts: spec_fn(Seq<bool>) -> bool,
    /// The estimate of the integral over a cell.
    pub estimate: spec_fn(Seq<bool>) -> T,
    /// The sum of the integrals over the lower and the upper half of a cell.
    pub sum: spec_fn(T, T) -> T,
}

impl<T> Rule<T> {
    /// The integral over `cell`: its estimate where that is accepted, else
    /// the sum of the integrals over its two halves.
    ///
    /// `None` where a cell more than `depth` halvings below `cell` would have
    /// to be halved again.
    pub open spec fn integral(self, cell: Seq<bool>, depth: nat) -> Option<T>
        decreases depth,
    {
        if (self.accepts)(cell) {
            Some((self.estimate)(cell))
        } else if depth == 0 {
            None
        } else {
            match (
                self.integral(cell.push(false), (depth - 1) as nat),
                self.integral(cell.push(true), (depth - 1) as nat),
            ) {
                (Some(below), Some(above)) => Some((self.sum)(below, above)),
                _ => None,
            }
        }
    }

    /// The event with which a caller who follows this rule answers `action`
    /// in `state`.
    pub open spec fn reply(self, state: State<T>, action: Action<T>) -> Event<T> {
        match action {
            Action::Add(below, above) => Event::Sum((self.sum)(below, above)),
            _ => if (self.accepts)(state.cell) {
                Event::Accept((self.estimate)(state.cell))
            } else {
                Event::Split
            },
        }
    }

    /// One turn of a caller who follows this rule: the action is answered
    /// and the subdivision takes its step. Nothing follows `Finish`.
    pub open spec fn turn(self, at: (State<T>, Action<T>)) -> (State<T>, Action<T>) {
        if at.1 is Finish {
            at
        } else {
            at.0.step(self.reply(at.0, at.1))
        }
    }

    /// Where `turns` turns lead from `at`.
    pub open spec fn run_from(self, at: (State<T>, Action<T>), turns: nat) -> (State<T>, Action<T>)
        decreases turns,
    {
        if turns == 0 {
            at
        } else {
            self.run_from(self.turn(at), (turns - 1) as nat)
        }
    }

    /// Where `turns` turns lead from the start.
    pub open spec fn run(self, turns: nat) -> (State<T>, Action<T>) {
        self.run_from((State::start(), Action::Estimate), turns)
    }
}

/// A step on an expected event leads to a well-formed state that has asked
/// for the action that comes with it.
pub proof fn step_keeps_wf<T>(state: State<T>, event: Event<T>)
    requires
        state.wf(),
        state.expects(event),
    ensures
        state.step(event).0.wf(),
        state.step(event).0.asks(state.step(event).1),
{
    uppers_of_half(state.cell, false);
    if state.cell.len() > 0 {
        let outer = state.cell.drop_last();
        assert(outer.push(state.cell.last()) =~= state.cell);
        uppers_of_half(outer, state.cell.last());
        uppers_of_half(outer, true);
    }
}

impl<T> Rule<T> {
    /// A run of `first + rest` turns is a run of `first` turns followed by
    /// one of `rest` turns.
    pub proof fn run_in_two(self, at: (State<T>, Action<T>), first: nat, rest: nat)
        ensures
            self.run_from(at, first + rest) == self.run_from(self.run_from(at, first), rest),
        decreases first,
    {
        if first > 0 {
            self.run_in_two(self.turn(at), (first - 1) as nat, rest);
        }
    }

    /// A caller who follows the rule is never out of turn: every reply is
    /// one that the subdivision is waiting for.
    pub proof fn run_from_stays_in_turn(self, at: (State<T>, Action<T>), turns: nat)
        requires
            at.0.wf(),
            at.0.asks(at.1),
        ensures
            self.run_from(at, turns).0.wf(),
            self.run_from(at, turns).0.asks(self.run_from(at, turns).1),
            !(at.1 is Finish) ==> at.0.expects(self.reply(at.0, at.1)),
        decreases turns,
    {
        if turns > 0 {
            if !(at.1 is Finish) {
                step_keeps_wf(at.0, self.reply(at.0, at.1));
            }
            self.run_from_stays_in_turn(self.turn(at), (turns - 1) as nat);
        }
    }

    /// From the start, a caller who follows the rule is never out of turn.
    pub proof fn run_stays_in_turn(self, turns: nat)
        ensures
            self.run(turns).0.wf(),
            self.run(turns).0.asks(self.run(turns).1),
            !(self.run(turns).1 is Finish) ==> self.run(turns).0.expects(
                self.reply(self.run(turns).0, self.run(turns).1),
            ),
    {
        let start = (State::<T>::start(), Action::<T>::Estimate);
        self.run_from_stays_in_turn(start, turns);
        self.run_from_stays_in_turn(self.run(turns), 0);
    }

    /// Nothing follows `Finish`.
    pub proof fn run_stays_finished(self, at: (State<T>, Action<T>), turns: nat)
        requires
            at.1 is Finish,
        ensures
            self.run_from(at, turns) == at,
        decreases turns,
    {
        if turns > 0 {
            self.run_stays_finished(at, (turns - 1) as nat);
        }
    }

    /// An integral that is reached within `depth` halvings is the same
    /// within any greater depth.
    pub proof fn integral_at_greater_depth(self, cell: Seq<bool>, depth: nat, greater: nat)
        requires
            self.integral(cell, depth) is Some,
            depth <= greater,
        ensures
            self.integral(cell, greater) == self.integral(cell, depth),
        decreases depth,
    {
        if !(self.accepts)(cell) {
            self.integral_at_greater_depth(
                cell.push(false),
                (depth - 1) as nat,
                (greater - 1) as nat,
            );
            self.integral_at_greater_depth(
                cell.push(true),
                (depth - 1) as nat,
                (greater - 1) as nat,
            );
        }
    }

    /// From a state that awaits the estimate for a cell whose integral is
    /// reached within `depth` halvings, the run delivers that integral.
    proof fn descend(self, state: State<T>, depth: nat) -> (turns: nat)
        requires
            state.phase == Phase::Estimating,
            state.wf(),
            self.integral(state.cell, depth) is Some,
        ensures
            self.run_from((state, Action::Estimate), turns) == state.deliver(
                self.integral(state.cell, depth).unwrap(),
            ),
        decreases depth,
    {
        let at = (state, Action::<T>::Estimate);
        if (self.accepts)(state.cell) {
            assert(self.run_from(self.turn(at), 0) == self.turn(at));
            1
        } else {
            let halved = self.turn(at);
            let below = self.integral(state.cell.push(false), (depth - 1) as nat).unwrap();
            let above = self.integral(state.cell.push(true), (depth - 1) as nat).unwrap();
            step_keeps_wf(state, Event::Split);
            let first = self.descend(halved.0, (depth - 1) as nat);
            let between = halved.0.deliver(below);
            assert(state.cell.push(false).drop_last() =~= state.cell);
            step_keeps_wf(halved.0, Event::Accept(below));
            let second = self.descend(between.0, (depth - 1) as nat);
            let adding = between.0.deliver(above);
            assert(state.cell.push(true).drop_last() =~= state.cell);
            assert(state.lower.push(below).drop_last() =~= state.lower);
            assert(adding.1 == Action::Add(below, above));
            assert(self.turn(adding) == state.deliver((self.sum)(below, above)));
            assert(self.run_from(self.turn(adding), 0) == self.turn(adding));
            self.run_in_two(halved, first, second + 1);
            self.run_in_two(between, second, 1);
            1 + first + second + 1
        }
    }

    /// From a state that awaits the estimate for a cell, a run that finishes
    /// within `turns` turns first delivers the integral over that cell.
    proof fn ascend(self, state: State<T>, turns: nat) -> (found: (nat, nat))
        requires
            state.phase == Phase::Estimating,
            state.wf(),
            self.run_from((state, Action::Estimate), turns).1 is Finish,
        ensures
            found.0 <= turns,
            self.integral(state.cell, found.1) is Some,
            self.run_from((state, Action::Estimate), found.0) == state.deliver(
                self.integral(state.cell, found.1).unwrap(),
            ),
        decreases turns,
    {
        let at = (state, Action::<T>::Estimate);
        if (self.accepts)(state.cell) {
            assert(self.run_from(self.turn(at), 0) == self.turn(at));
            (1, 0)
        } else {
            let halved = self.turn(at);
            step_keeps_wf(state, Event::Split);
            let (first, depth_below) = self.ascend(halved.0, (turns - 1) as nat);
            let below = self.integral(state.cell.push(false), depth_below).unwrap();
            let between = halved.0.deliver(below);
            assert(state.cell.push(false).drop_last() =~= state.cell);
            step_keeps_wf(halved.0, Event::Accept(below));
            self.run_in_two(halved, first, (turns - 1 - first) as nat);
            let (second, depth_above) = self.ascend(between.0, (turns - 1 - first) as nat);
            let above = self.integral(state.cell.push(true), depth_above).unwrap();
            let adding = between.0.deliver(above);
            assert(state.cell.push(true).drop_last() =~= state.cell);
            assert(state.lower.push(below).drop_last() =~= state.lower);
            assert(adding.1 == Action::Add(below, above));
            self.run_in_two(between, second, (turns - 1 - first - second) as nat);
            assert(turns - 1 - first - second > 0);
            assert(self.turn(adding) == state.deliver((self.sum)(below, above)));
            assert(self.run_from(self.turn(adding), 0) == self.turn(adding));
            self.run_in_two(halved, first, second + 1);
            self.run_in_two(between, second, 1);
            let depth = if depth_below <= depth_above { depth_above } else { depth_below };
            self.integral_at_greater_depth(state.cell.push(false), depth_below, depth);
            self.integral_at_greater_depth(state.cell.push(true), depth_above, depth);
            (1 + first + second + 1, depth + 1)
        }
    }

    /// The integral over the whole interval, where the recursion reaches it
    /// within `depth` halvings, is what a caller who follows the rule is
    /// handed with `Finish` after some number of turns.
    pub proof fn run_reaches_integral(self, depth: nat) -> (turns: nat)
        requires
            self.integral(Seq::empty(), depth) is Some,
        ensures
            self.run(turns).1 == Action::Finish(self.integral(Seq::empty(), depth).unwrap()),
    {
        self.descend(State::start(), depth)
    }

    /// What a caller who follows the rule is handed with `Finish` is the
    /// integral over the whole interval, which the recursion reaches within
    /// some number of halvings.
    pub proof fn run_finishes_with_integral(self, turns: nat) -> (depth: nat)
        requires
            self.run(turns).1 is Finish,
        ensures
            self.run(turns).1 == Action::Finish(self.integral(Seq::empty(), depth).unwrap()),
            self.integral(Seq::empty(), depth) is Some,
    {
        let start = (State::<T>::start(), Action::<T>::Estimate);
        let (taken, depth) = self.ascend(start.0, turns);
        self.run_in_two(start, taken, (turns - taken) as nat);
        self.run_stays_finished(self.run_from(start, taken), (turns - taken) as nat);
        depth
    }
}

} // verus!
