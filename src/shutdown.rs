use vstd::prelude::*;

verus! {

/// What the accept loop observes.
#[derive(Clone, Copy, Debug, PartialEq, Eq, Structural)]
pub enum ConnEvent {
    /// A new connection was accepted.
    Accepted,
    /// A connection's handler finished.
    Finished,
    /// Shutdown was requested.
    Cancelled,
}

/// The state after one event: whether connections are still admitted, and
/// how many handlers are in flight.
pub open spec fn next_state(s: (bool, nat), e: ConnEvent) -> (bool, nat) {
    match e {
        ConnEvent::Accepted => if s.0 {
            (true, s.1 + 1)
        } else {
            s
        },
        ConnEvent::Finished => if s.1 > 0 {
            (s.0, (s.1 - 1) as nat)
        } else {
            s
        },
        ConnEvent::Cancelled => (false, s.1),
    }
}

/// The state after a run of events.
pub open spec fn run_events(s: (bool, nat), es: Seq<ConnEvent>) -> (bool, nat)
    decreases es.len(),
{
    if es.len() == 0 {
        s
    } else {
        next_state(run_events(s, es.drop_last()), es.last())
    }
}

/// How many handlers finished in a run of events.
pub open spec fn finished_in(es: Seq<ConnEvent>) -> nat
    decreases es.len(),
{
    if es.len() == 0 {
        0
    } else {
        finished_in(es.drop_last()) + if es.last() == ConnEvent::Finished {
            1nat
        } else {
            0nat
        }
    }
}

/// Shutdown has completed: nothing is admitted and nothing is in flight.
pub open spec fn drained(s: (bool, nat)) -> bool {
    !s.0 && s.1 == 0
}

/// Once shutdown has been requested, no later event admits a connection,
/// the count in flight falls only as handlers finish, and shutdown cannot
/// complete before every handler that was in flight has finished.
pub proof fn lemma_cancel_drains(s: (bool, nat), es: Seq<ConnEvent>)
    requires
        !s.0,
    ensures
        !run_events(s, es).0,
        run_events(s, es).1 + finished_in(es) >= s.1,
        run_events(s, es).1 <= s.1,
        drained(run_events(s, es)) ==> finished_in(es) >= s.1,
    decreases es.len(),
{
    if es.len() > 0 {
        lemma_cancel_drains(s, es.drop_last());
    }
}

/// Counts the connections in flight and whether new ones are admitted.
#[derive(Debug)]
pub struct ShutdownCoordinator {
    accepting: bool,
    in_flight: u64,
}

impl View for ShutdownCoordinator {
    type V = (bool, nat);

    closed spec fn view(&self) -> (bool, nat) {
        (self.accepting, self.in_flight as nat)
    }
}

impl ShutdownCoordinator {
    pub fn new() -> (r: ShutdownCoordinator)
        ensures
            r@ == (true, 0nat),
    {
        ShutdownCoordinator { accepting: true, in_flight: 0 }
    }

    pub fn accepting(&self) -> (r: bool)
        ensures
            r == self@.0,
    {
        self.accepting
    }

    pub fn in_flight(&self) -> (r: u64)
        ensures
            r as nat == self@.1,
    {
        self.in_flight
    }

    /// A connection was accepted: it is admitted, and counted, only while
    /// no shutdown has been requested. The result says whether to spawn
    /// its handler.
    pub fn on_accept(&mut self) -> (spawn: bool)
        requires
            old(self)@.1 < u64::MAX,
        ensures
            final(self)@ == next_state(old(self)@, ConnEvent::Accepted),
            spawn == old(self)@.0,
    {
        if self.accepting {
            self.in_flight = self.in_flight + 1;
            true
        } else {
            false
        }
    }

    /// A handler finished.
    pub fn on_finish(&mut self)
        ensures
            final(self)@ == next_state(old(self)@, ConnEvent::Finished),
    {
        if self.in_flight > 0 {
            self.in_flight = self.in_flight - 1;
        }
    }

    /// Shutdown was requested: stop admitting connections.
    pub fn on_cancel(&mut self)
        ensures
            final(self)@ == next_state(old(self)@, ConnEvent::Cancelled),
    {
        self.accepting = false;
    }

    /// Whether shutdown has completed.
    pub fn is_done(&self) -> (r: bool)
        ensures
            r == drained(self@),
    {
        !self.accepting && self.in_flight == 0
    }
}

} // verus!
