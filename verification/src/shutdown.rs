//! The shutdown coordinator: a state machine that admits connections
//! while running, refuses them once termination is requested, and stops
//! when the work already admitted is done.

use vstd::prelude::*;

verus! {

/// The phases of the server's life, in the only order they are taken.
#[derive(Clone, Copy, Debug, PartialEq, Eq, Structural)]
pub enum ShutdownState {
    Running,
    Draining,
    Stopped,
}

/// What can happen to the coordinator.
#[derive(Clone, Copy, Debug, PartialEq, Eq, Structural)]
pub enum ShutdownEvent {
    /// A connection asks to be admitted.
    Accept,
    /// An admitted request has delivered its response.
    Complete,
    /// Termination is requested from outside.
    Terminate,
}

/// The coordinator as specifications see it.
pub struct CoordinatorView {
    pub state: ShutdownState,
    pub in_flight: nat,
}

/// The position of a phase in the order `Running`, `Draining`, `Stopped`.
pub open spec fn rank(state: ShutdownState) -> nat {
    match state {
        ShutdownState::Running => 0,
        ShutdownState::Draining => 1,
        ShutdownState::Stopped => 2,
    }
}

/// The states a coordinator can be in: draining only while work is in
/// flight, stopped only when none is, and the count within the counter.
pub open spec fn consistent(c: CoordinatorView) -> bool {
    &&& c.in_flight <= u64::MAX
    &&& c.state == ShutdownState::Draining ==> c.in_flight > 0
    &&& c.state == ShutdownState::Stopped ==> c.in_flight == 0
}

/// Whether a connection that asks now is admitted.
pub open spec fn admits(c: CoordinatorView) -> bool {
    c.state == ShutdownState::Running && c.in_flight < u64::MAX
}

/// The state after one event.
pub open spec fn step(c: CoordinatorView, event: ShutdownEvent) -> CoordinatorView {
    match event {
        ShutdownEvent::Accept => if admits(c) {
            CoordinatorView { state: c.state, in_flight: c.in_flight + 1 }
        } else {
            c
        },
        ShutdownEvent::Complete => if c.in_flight == 0 {
            c
        } else if c.state == ShutdownState::Draining && c.in_flight == 1 {
            CoordinatorView { state: ShutdownState::Stopped, in_flight: 0 }
        } else {
            CoordinatorView { state: c.state, in_flight: (c.in_flight - 1) as nat }
        },
        ShutdownEvent::Terminate => if c.state == ShutdownState::Running {
            if c.in_flight == 0 {
                CoordinatorView { state: ShutdownState::Stopped, in_flight: 0 }
            } else {
                CoordinatorView { state: ShutdownState::Draining, in_flight: c.in_flight }
            }
        } else {
            c
        },
    }
}

/// The state after a sequence of events.
pub open spec fn run(c: CoordinatorView, events: Seq<ShutdownEvent>) -> CoordinatorView
    decreases events.len(),
{
    if events.len() == 0 {
        c
    } else {
        step(run(c, events.drop_last()), events.last())
    }
}

/// Every event keeps the state consistent and never moves it backwards.
pub proof fn lemma_step_monotonic(c: CoordinatorView, event: ShutdownEvent)
    requires
        consistent(c),
    ensures
        consistent(step(c, event)),
        rank(step(c, event).state) >= rank(c.state),
{
}

/// Whatever happens, the state stays consistent and never moves backwards.
pub proof fn lemma_run_monotonic(c: CoordinatorView, events: Seq<ShutdownEvent>)
    requires
        consistent(c),
    ensures
        consistent(run(c, events)),
        rank(run(c, events).state) >= rank(c.state),
    decreases events.len(),
{
    if events.len() > 0 {
        lemma_run_monotonic(c, events.drop_last());
        lemma_step_monotonic(run(c, events.drop_last()), events.last());
    }
}

/// A termination request during draining, or after the stop, changes
/// nothing; so requesting termination twice is the same as once.
pub proof fn lemma_terminate_idempotent(c: CoordinatorView)
    ensures
        c.state != ShutdownState::Running ==> step(c, ShutdownEvent::Terminate) == c,
        step(step(c, ShutdownEvent::Terminate), ShutdownEvent::Terminate) == step(
            c,
            ShutdownEvent::Terminate,
        ),
{
}

/// Once termination has been requested no connection is admitted any more,
/// whatever happens afterwards, and the work in flight never grows.
pub proof fn lemma_no_admission_after_terminate(c: CoordinatorView, events: Seq<ShutdownEvent>)
    requires
        consistent(c),
    ensures
        !admits(run(step(c, ShutdownEvent::Terminate), events)),
        run(step(c, ShutdownEvent::Terminate), events).in_flight <= c.in_flight,
        step(run(step(c, ShutdownEvent::Terminate), events), ShutdownEvent::Accept) == run(
            step(c, ShutdownEvent::Terminate),
            events,
        ),
    decreases events.len(),
{
    let start = step(c, ShutdownEvent::Terminate);
    lemma_step_monotonic(c, ShutdownEvent::Terminate);
    lemma_run_monotonic(start, events);
    if events.len() > 0 {
        lemma_no_admission_after_terminate(c, events.drop_last());
    }
}

/// `n` completions in a row.
pub open spec fn completions(n: nat) -> Seq<ShutdownEvent> {
    Seq::new(n, |i: int| ShutdownEvent::Complete)
}

/// A request admitted before termination can still complete, and when
/// all that were in flight have completed the coordinator has stopped.
pub proof fn lemma_drain_stops(c: CoordinatorView)
    requires
        consistent(c),
    ensures
        run(step(c, ShutdownEvent::Terminate), completions(c.in_flight)).state
            == ShutdownState::Stopped,
{
    let start = step(c, ShutdownEvent::Terminate);
    lemma_step_monotonic(c, ShutdownEvent::Terminate);
    lemma_completions(start, c.in_flight);
}

proof fn lemma_completions(c: CoordinatorView, n: nat)
    requires
        consistent(c),
        c.state != ShutdownState::Running,
        n <= c.in_flight,
    ensures
        run(c, completions(n)).in_flight == c.in_flight - n,
        run(c, completions(n)).state == if n == c.in_flight {
            ShutdownState::Stopped
        } else {
            c.state
        },
    decreases n,
{
    if n > 0 {
        let events = completions(n);
        assert(events.drop_last() =~= completions((n - 1) as nat));
        assert(events.last() == ShutdownEvent::Complete);
        lemma_completions(c, (n - 1) as nat);
    } else {
        assert(completions(0).len() == 0);
    }
}

/// Tracks the phase of the server and the number of requests in flight.
#[derive(Debug)]
pub struct ShutdownCoordinator {
    state: ShutdownState,
    in_flight: u64,
}

impl View for ShutdownCoordinator {
    type V = CoordinatorView;

    closed spec fn view(&self) -> CoordinatorView {
        CoordinatorView { state: self.state, in_flight: self.in_flight as nat }
    }
}

impl ShutdownCoordinator {
    #[verifier::type_invariant]
    spec fn inv(self) -> bool {
        consistent(CoordinatorView { state: self.state, in_flight: self.in_flight as nat })
    }

    /// A running coordinator with nothing in flight.
    pub fn new() -> (out: ShutdownCoordinator)
        ensures
            out@ == (CoordinatorView { state: ShutdownState::Running, in_flight: 0 }),
    {
        ShutdownCoordinator { state: ShutdownState::Running, in_flight: 0 }
    }

    /// The current phase.
    pub fn state(&self) -> (out: ShutdownState)
        ensures
            out == self@.state,
            consistent(self@),
    {
        proof {
            use_type_invariant(self);
        }
        self.state
    }

    /// The number of admitted requests that have not completed.
    pub fn in_flight(&self) -> (out: u64)
        ensures
            out == self@.in_flight,
            consistent(self@),
    {
        proof {
            use_type_invariant(self);
        }
        self.in_flight
    }

    /// Whether control may return to the process.
    pub fn is_stopped(&self) -> (out: bool)
        ensures
            out == (self@.state == ShutdownState::Stopped),
    {
        self.state == ShutdownState::Stopped
    }

    /// Asks to admit a connection. It is admitted only while running; the
    /// answer says whether it was, and an admitted one counts as in flight.
    pub fn try_admit(&mut self) -> (admitted: bool)
        ensures
            admitted == admits(old(self)@),
            final(self)@ == step(old(self)@, ShutdownEvent::Accept),
    {
        proof {
            use_type_invariant(&*self);
        }
        if self.state == ShutdownState::Running && self.in_flight < u64::MAX {
            self.in_flight = self.in_flight + 1;
            true
        } else {
            false
        }
    }

    /// Records that an admitted request has delivered its response. The
    /// answer says whether this was the last one of a draining server, so
    /// that the server has now stopped.
    pub fn complete(&mut self) -> (stopped_now: bool)
        ensures
            final(self)@ == step(old(self)@, ShutdownEvent::Complete),
            stopped_now == (old(self)@.state == ShutdownState::Draining && final(self)@.state
                == ShutdownState::Stopped),
    {
        proof {
            use_type_invariant(&*self);
        }
        if self.in_flight == 0 {
            false
        } else if self.state == ShutdownState::Draining && self.in_flight == 1 {
            *self = ShutdownCoordinator { state: ShutdownState::Stopped, in_flight: 0 };
            true
        } else {
            self.in_flight = self.in_flight - 1;
            false
        }
    }

    /// Requests termination. The first request of a running server begins
    /// the shutdown, and the answer is `true`; any later request changes
    /// nothing and is answered `false`.
    pub fn request_shutdown(&mut self) -> (began: bool)
        ensures
            final(self)@ == step(old(self)@, ShutdownEvent::Terminate),
            began == (old(self)@.state == ShutdownState::Running),
    {
        proof {
            use_type_invariant(&*self);
        }
        if self.state == ShutdownState::Running {
            if self.in_flight == 0 {
                self.state = ShutdownState::Stopped;
            } else {
                self.state = ShutdownState::Draining;
            }
            true
        } else {
            false
        }
    }

    /// Applies one event.
    pub fn handle(&mut self, event: ShutdownEvent)
        ensures
            final(self)@ == step(old(self)@, event),
    {
        match event {
            ShutdownEvent::Accept => {
                let _ = self.try_admit();
            },
            ShutdownEvent::Complete => {
                let _ = self.complete();
            },
            ShutdownEvent::Terminate => {
                let _ = self.request_shutdown();
            },
        }
    }
}

} // verus!
