//! The decisions of the background worker that refreshes wallet state when
//! it is signalled.
//!
//! The worker itself waits, runs refresh passes and stops; this module says
//! which of these it does next. It is told what happened (a signal came, a
//! pass finished, the signal channel closed) and answers with the next thing
//! to do.

use vstd::prelude::*;

verus! {

/// Where the worker stands.
#[derive(Clone, Copy, Debug, PartialEq, Eq, Structural)]
pub enum Phase {
    /// No pass is running and no signal is waiting.
    Idle,
    /// A refresh pass is running.
    Refreshing,
    /// The channel closed and every signal was served. Nothing more happens.
    Stopped,
}

/// What happened to the worker.
#[derive(Clone, Copy, Debug, PartialEq, Eq, Structural)]
pub enum Input {
    /// A signal arrived.
    Signal,
    /// The running refresh pass finished.
    PassFinished,
    /// The signal channel closed for good.
    Closed,
}

/// What the worker does next.
#[derive(Clone, Copy, Debug, PartialEq, Eq, Structural)]
pub enum Action {
    /// Wait for the next signal.
    AwaitSignal,
    /// Start a refresh pass.
    StartRefresh,
    /// Go on with the refresh pass that is running.
    KeepRefreshing,
    /// End the worker.
    Stop,
}

/// The state of the worker: its phase, the signals that arrived during a
/// pass and are still to be served, the number of signals that can wait at
/// once, and whether the channel has closed.
#[derive(Clone, Copy, Debug, PartialEq, Eq, Structural)]
pub struct Dispatcher {
    pub phase: Phase,
    pub pending: usize,
    pub slots: usize,
    pub closed: bool,
}

impl Dispatcher {
    /// There is at least one slot, no more signals wait than there are
    /// slots, and signals wait only while a pass is running.
    pub open spec fn wf(self) -> bool {
        &&& 0 < self.slots
        &&& self.pending <= self.slots
        &&& self.phase != Phase::Refreshing ==> self.pending == 0
        &&& self.phase == Phase::Idle ==> !self.closed
        &&& self.phase == Phase::Stopped ==> self.closed
    }

    /// The state that `input` leads to from `self`.
    ///
    /// A signal starts a pass when the worker is idle; during a pass it takes
    /// a free slot, and is merged into the waiting ones when no slot is
    /// free. A finished pass is followed by another pass while a signal
    /// waits, which uses that signal up; else the worker stops if the channel
    /// has closed, and goes idle if not. A closed channel stops an idle
    /// worker at once and a busy one after the passes still owed.
    pub open spec fn spec_next(self, input: Input) -> Dispatcher {
        match self.phase {
            Phase::Idle => match input {
                Input::Signal => Dispatcher { phase: Phase::Refreshing, ..self },
                Input::PassFinished => self,
                Input::Closed => Dispatcher { phase: Phase::Stopped, closed: true, ..self },
            },
            Phase::Refreshing => match input {
                Input::Signal => if self.pending < self.slots {
                    Dispatcher { pending: (self.pending + 1) as usize, ..self }
                } else {
                    self
                },
                Input::PassFinished => if self.pending > 0 {
                    Dispatcher { pending: (self.pending - 1) as usize, ..self }
                } else if self.closed {
                    Dispatcher { phase: Phase::Stopped, ..self }
                } else {
                    Dispatcher { phase: Phase::Idle, ..self }
                },
                Input::Closed => Dispatcher { closed: true, ..self },
            },
            Phase::Stopped => self,
        }
    }

    /// What the worker does once `input` has led it from `self` to the next
    /// state: it starts a pass exactly when a signal finds it idle or a
    /// finished pass leaves a signal waiting.
    pub open spec fn spec_action(self, input: Input) -> Action {
        match self.spec_next(input).phase {
            Phase::Idle => Action::AwaitSignal,
            Phase::Stopped => Action::Stop,
            Phase::Refreshing => if (self.phase == Phase::Idle && input == Input::Signal) || (
            self.phase == Phase::Refreshing && input == Input::PassFinished) {
                Action::StartRefresh
            } else {
                Action::KeepRefreshing
            },
        }
    }

    /// An idle worker in front of a channel in which `slots` signals can wait.
    pub fn new(slots: usize) -> (dispatcher: Dispatcher)
        requires
            0 < slots,
        ensures
            dispatcher == (Dispatcher { phase: Phase::Idle, pending: 0, slots, closed: false }),
            dispatcher.wf(),
    {
        Dispatcher { phase: Phase::Idle, pending: 0, slots, closed: false }
    }

    /// Takes `input` in and says what to do next.
    pub fn step(&mut self, input: Input) -> (action: Action)
        requires
            old(self).wf(),
        ensures
            final(self).wf(),
            *final(self) == old(self).spec_next(input),
            action == old(self).spec_action(input),
    {
        match self.phase {
            Phase::Idle => match input {
                Input::Signal => {
                    self.phase = Phase::Refreshing;
                    Action::StartRefresh
                },
                Input::PassFinished => Action::AwaitSignal,
                Input::Closed => {
                    self.phase = Phase::Stopped;
                    self.closed = true;
                    Action::Stop
                },
            },
            Phase::Refreshing => match input {
                Input::Signal => {
                    if self.pending < self.slots {
                        self.pending = self.pending + 1;
                    }
                    Action::KeepRefreshing
                },
                Input::PassFinished => {
                    if self.pending > 0 {
                        self.pending = self.pending - 1;
                        Action::StartRefresh
                    } else if self.closed {
                        self.phase = Phase::Stopped;
                        Action::Stop
                    } else {
                        self.phase = Phase::Idle;
                        Action::AwaitSignal
                    }
                },
                Input::Closed => {
                    self.closed = true;
                    Action::KeepRefreshing
                },
            },
            Phase::Stopped => Action::Stop,
        }
    }
}

/// The state that the worker reaches from `state` when `inputs` happen one
/// after the other, front first.
pub open spec fn run(state: Dispatcher, inputs: Seq<Input>) -> Dispatcher
    decreases inputs.len(),
{
    if inputs.len() == 0 {
        state
    } else {
        run(state, inputs.drop_last()).spec_next(inputs.last())
    }
}

/// The number of refresh passes that the worker starts while `inputs` happen
/// to it from `state` on.
pub open spec fn passes_started(state: Dispatcher, inputs: Seq<Input>) -> nat
    decreases inputs.len(),
{
    if inputs.len() == 0 {
        0
    } else {
        let before = run(state, inputs.drop_last());
        let earlier = passes_started(state, inputs.drop_last());
        if before.spec_action(inputs.last()) == Action::StartRefresh {
            earlier + 1
        } else {
            earlier
        }
    }
}

/// The number of signals among `inputs`.
pub open spec fn signals_in(inputs: Seq<Input>) -> nat
    decreases inputs.len(),
{
    if inputs.len() == 0 {
        0
    } else if inputs.last() == Input::Signal {
        signals_in(inputs.drop_last()) + 1
    } else {
        signals_in(inputs.drop_last())
    }
}

/// `count` signals and nothing else.
pub open spec fn burst(count: nat) -> Seq<Input> {
    Seq::new(count, |i: int| Input::Signal)
}

/// Every step keeps the state well-formed.
pub proof fn lemma_next_wf(state: Dispatcher, input: Input)
    requires
        state.wf(),
    ensures
        state.spec_next(input).wf(),
        state.spec_next(input).slots == state.slots,
{
}

/// Whatever happens to a well-formed worker, it stays well-formed.
pub proof fn lemma_run_wf(state: Dispatcher, inputs: Seq<Input>)
    requires
        state.wf(),
    ensures
        run(state, inputs).wf(),
        run(state, inputs).slots == state.slots,
    decreases inputs.len(),
{
    if inputs.len() > 0 {
        lemma_run_wf(state, inputs.drop_last());
        lemma_next_wf(run(state, inputs.drop_last()), inputs.last());
    }
}

/// Signals that arrive during a pass leave the pass running and wait, as
/// many of them as there are free slots.
pub proof fn lemma_burst_during_pass(state: Dispatcher, count: nat)
    requires
        state.wf(),
        state.phase == Phase::Refreshing,
    ensures
        run(state, burst(count)) == (Dispatcher {
            pending: if state.pending + count <= state.slots {
                (state.pending + count) as usize
            } else {
                state.slots
            },
            ..state
        }),
    decreases count,
{
    if count > 0 {
        let shorter = (count - 1) as nat;
        assert(burst(count).drop_last() =~= burst(shorter));
        lemma_burst_during_pass(state, shorter);
    }
}

/// However many signals arrive while a pass is running, one at least, the
/// worker starts another pass as soon as the running one finishes.
pub proof fn lemma_signals_during_pass_force_another(state: Dispatcher, count: nat)
    requires
        state.wf(),
        state.phase == Phase::Refreshing,
        0 < count,
    ensures
        run(state, burst(count)).spec_action(Input::PassFinished) == Action::StartRefresh,
        run(state, burst(count)).spec_next(Input::PassFinished).phase == Phase::Refreshing,
{
    lemma_burst_during_pass(state, count);
}

/// A pass that finishes with no signal waiting is not followed by another
/// pass: the worker goes idle, or stops if the channel has closed.
pub proof fn lemma_no_pass_without_signal(state: Dispatcher)
    requires
        state.wf(),
        state.phase == Phase::Refreshing,
        state.pending == 0,
    ensures
        state.spec_action(Input::PassFinished) != Action::StartRefresh,
        state.spec_next(Input::PassFinished).phase != Phase::Refreshing,
{
}

/// An idle worker starts a pass on a signal and on nothing else.
pub proof fn lemma_idle_starts_on_signal_only(state: Dispatcher, input: Input)
    requires
        state.wf(),
        state.phase == Phase::Idle,
    ensures
        state.spec_action(input) == Action::StartRefresh <==> input == Input::Signal,
{
}

/// The worker stops only when the channel has closed: while it has not, the
/// worker is idle or refreshing, whatever else happens.
pub proof fn lemma_stops_only_when_closed(state: Dispatcher, inputs: Seq<Input>)
    requires
        state.wf(),
        !state.closed,
        forall|i: int| 0 <= i < inputs.len() ==> inputs[i] != Input::Closed,
    ensures
        run(state, inputs).phase != Phase::Stopped,
        !run(state, inputs).closed,
    decreases inputs.len(),
{
    if inputs.len() > 0 {
        let earlier = inputs.drop_last();
        assert forall|i: int| 0 <= i < earlier.len() implies earlier[i] != Input::Closed by {
            assert(earlier[i] == inputs[i]);
        }
        lemma_stops_only_when_closed(state, earlier);
        lemma_run_wf(state, earlier);
        assert(inputs.last() == inputs[inputs.len() - 1]);
    }
}

/// Once the channel has closed, the worker stops as soon as a pass finishes
/// with no signal waiting, and it stays stopped.
pub proof fn lemma_closed_worker_stops(state: Dispatcher, input: Input)
    requires
        state.wf(),
        state.closed,
    ensures
        state.phase == Phase::Refreshing && state.pending == 0 && input == Input::PassFinished
            ==> state.spec_next(input).phase == Phase::Stopped,
        state.phase == Phase::Stopped ==> state.spec_next(input) == state && state.spec_action(
            input,
        ) == Action::Stop,
{
}

/// The worker never starts more passes than signals have arrived: the
/// passes it has started and the signals that still wait are together no
/// more than the signals that came and those that waited at the outset.
pub proof fn lemma_passes_bounded_by_signals(state: Dispatcher, inputs: Seq<Input>)
    requires
        state.wf(),
    ensures
        passes_started(state, inputs) + run(state, inputs).pending <= signals_in(inputs)
            + state.pending,
    decreases inputs.len(),
{
    if inputs.len() > 0 {
        lemma_passes_bounded_by_signals(state, inputs.drop_last());
        lemma_run_wf(state, inputs.drop_last());
    }
}

} // verus!
