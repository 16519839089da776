//! The subdivision as a machine that is driven step by step.

use vstd::prelude::*;

verus! {

/// What the caller reports to a [`Subdivision`].
#[derive(Debug, PartialEq, Eq)]
pub enum Event<T> {
    /// The estimate over the current cell is within its tolerance; this is it.
    Accept(T),
    /// The estimate over the current cell is not within its tolerance.
    Split,
    /// The sum of the two values handed out by [`Action::Add`].
    Sum(T),
}

/// What a [`Subdivision`] asks of the caller next.
#[derive(Debug, PartialEq, Eq)]
pub enum Action<T> {
    /// Estimate the integral over the current cell and judge the estimate.
    Estimate,
    /// Add the integral over the lower half of the current cell, given first,
    /// to the integral over its upper half.
    Add(T, T),
    /// The integral over the whole interval: nothing is left to do.
    Finish(T),
}

/// What a [`Subdivision`] is waiting for.
#[derive(Clone, Copy, Debug, PartialEq, Eq)]
pub enum Phase {
    /// For the verdict on the current cell.
    Estimating,
    /// For the sum of the two halves of the current cell.
    Adding,
    /// For nothing: the result has been handed out.
    Finished,
}

/// The mathematical state of a [`Subdivision`].
///
/// A cell is a part of the whole interval that is reached by halving it
/// `cell.len()` times; `cell[i]` tells whether the upper half (`true`) or the
/// lower half (`false`) was taken at the `i`-th halving.
pub struct State<T> {
    pub phase: Phase,
    /// The cell that is being estimated, or whose halves are being added.
    pub cell: Seq<bool>,
    /// The integrals over the lower halves that lie beside the upper halves
    /// on the way to `cell`, outermost first.
    pub lower: Seq<T>,
}

/// The number of upper halves taken on the way to `cell`.
pub open spec fn uppers(cell: Seq<bool>) -> nat
    decreases cell.len(),
{
    if cell.len() == 0 {
        0
    } else {
        uppers(cell.drop_last()) + if cell.last() { 1nat } else { 0nat }
    }
}

/// Taking one more half adds one to the count if it is an upper half.
pub proof fn uppers_of_half(cell: Seq<bool>, upper: bool)
    ensures
        uppers(cell.push(upper)) == uppers(cell) + if upper { 1nat } else { 0nat },
{
    assert(cell.push(upper).drop_last() =~= cell);
}

impl<T> State<T> {
    /// The state in which the whole interval awaits its estimate.
    pub open spec fn start() -> State<T> {
        State { phase: Phase::Estimating, cell: Seq::empty(), lower: Seq::empty() }
    }

    /// Every upper half on the way to the cell has the integral over its
    /// lower sibling stored, and nothing else is stored.
    pub open spec fn wf(self) -> bool {
        match self.phase {
            Phase::Finished => self.cell.len() == 0 && self.lower.len() == 0,
            _ => self.lower.len() == uppers(self.cell),
        }
    }

    /// Whether `action` is what this state has asked for.
    pub open spec fn asks(self, action: Action<T>) -> bool {
        match action {
            Action::Estimate => self.phase == Phase::Estimating,
            Action::Add(_, _) => self.phase == Phase::Adding,
            Action::Finish(_) => self.phase == Phase::Finished,
        }
    }

    /// Whether `event` answers what this state is waiting for.
    pub open spec fn expects(self, event: Event<T>) -> bool {
        match self.phase {
            Phase::Estimating => event is Accept || event is Split,
            Phase::Adding => event is Sum,
            Phase::Finished => false,
        }
    }

    /// The state and the action that follow once `value` is known to be the
    /// integral over the current cell.
    pub open spec fn deliver(self, value: T) -> (State<T>, Action<T>) {
        if self.cell.len() == 0 {
            (
                State { phase: Phase::Finished, cell: Seq::empty(), lower: Seq::empty() },
                Action::Finish(value),
            )
        } else if !self.cell.last() {
            (
                State {
                    phase: Phase::Estimating,
                    cell: self.cell.drop_last().push(true),
                    lower: self.lower.push(value),
                },
                Action::Estimate,
            )
        } else {
            (
                State {
                    phase: Phase::Adding,
                    cell: self.cell.drop_last(),
                    lower: self.lower.drop_last(),
                },
                Action::Add(self.lower.last(), value),
            )
        }
    }

    /// The state and the action that follow an expected `event`.
    pub open spec fn step(self, event: Event<T>) -> (State<T>, Action<T>)
        recommends
            self.expects(event),
    {
        match event {
            Event::Accept(value) => self.deliver(value),
            Event::Split => (
                State { phase: Phase::Estimating, cell: self.cell.push(false), lower: self.lower },
                Action::Estimate,
            ),
            Event::Sum(value) => self.deliver(value),
        }
    }
}

/// An adaptive subdivision of an interval in progress.
///
/// The caller holds the interval, the tolerance and the function, and does
/// all arithmetic. The subdivision says what to do next; it starts by
/// awaiting the estimate for the whole interval.
pub struct Subdivision<T> {
    phase: Phase,
    cell: Vec<bool>,
    lower: Vec<T>,
}

impl<T> View for Subdivision<T> {
    type V = State<T>;

    closed spec fn view(&self) -> State<T> {
        State { phase: self.phase, cell: self.cell@, lower: self.lower@ }
    }
}

impl<T> Subdivision<T> {
    #[verifier::type_invariant]
    spec fn valid(self) -> bool {
        self@.wf()
    }

    /// A subdivision that awaits the estimate for the whole interval.
    pub fn new() -> (s: Self)
        ensures
            s@ == State::<T>::start(),
    {
        Subdivision { phase: Phase::Estimating, cell: Vec::new(), lower: Vec::new() }
    }

    /// The cell that the subdivision is working on.
    pub fn cell(&self) -> (cell: &Vec<bool>)
        ensures
            cell@ == self@.cell,
    {
        &self.cell
    }

    /// What the subdivision is waiting for.
    pub fn phase(&self) -> (phase: Phase)
        ensures
            phase == self@.phase,
    {
        self.phase
    }

    /// Takes the caller's report and says what to do next.
    ///
    /// An event that the subdivision is not waiting for changes nothing and
    /// is answered with `None`.
    pub fn step(&mut self, event: Event<T>) -> (action: Option<Action<T>>)
        ensures
            old(self)@.expects(event) ==> (final(self)@, action) == (
                old(self)@.step(event).0,
                Some(old(self)@.step(event).1),
            ),
            !old(self)@.expects(event) ==> final(self)@ == old(self)@ && action is None,
            final(self)@.wf(),
    {
        let mut state = Subdivision::new();
        core::mem::swap(self, &mut state);
        let (next, action) = state.advance(event);
        *self = next;
        proof {
            use_type_invariant(&*self);
        }
        action
    }

    fn advance(self, event: Event<T>) -> (r: (Self, Option<Action<T>>))
        ensures
            self@.expects(event) ==> (r.0@, r.1) == (self@.step(event).0, Some(self@.step(event).1)),
            !self@.expects(event) ==> r.0@ == self@ && r.1 is None,
    {
        proof {
            use_type_invariant(&self);
        }
        let Subdivision { phase, mut cell, mut lower } = self;
        proof {
            uppers_of_half(cell@, false);
            if cell@.len() > 0 {
                uppers_of_half(cell@.drop_last(), true);
            }
        }
        let ghost before = self@;
        match (phase, event) {
            (Phase::Estimating, Event::Split) => {
                cell.push(false);
                (Subdivision { phase, cell, lower }, Some(Action::Estimate))
            },
            (Phase::Estimating, Event::Accept(value)) | (Phase::Adding, Event::Sum(value)) => {
                match cell.pop() {
                    None => {
                        assert(lower@ =~= Seq::empty());
                        assert(cell@ =~= Seq::empty());
                        (
                            Subdivision { phase: Phase::Finished, cell, lower },
                            Some(Action::Finish(value)),
                        )
                    },
                    Some(false) => {
                        cell.push(true);
                        lower.push(value);
                        (
                            Subdivision { phase: Phase::Estimating, cell, lower },
                            Some(Action::Estimate),
                        )
                    },
                    Some(true) => {
                        assert(uppers(before.cell) > 0);
                        let below = lower.pop().unwrap();
                        (
                            Subdivision { phase: Phase::Adding, cell, lower },
                            Some(Action::Add(below, value)),
                        )
                    },
                }
            },
            _ => (Subdivision { phase, cell, lower }, None),
        }
    }
}

} // verus!
