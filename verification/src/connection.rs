//! The supervision of one accepted connection.
//!
//! A connection serves requests until its peer goes away, its transport
//! fails, or shutdown is signalled. After the signal the exchanges that are
//! in flight are allowed to complete, a request that still arrives is
//! refused with a connection-close answer, and the task exits once nothing
//! is in flight.

use crate::error::Error;
use vstd::prelude::*;

verus! {

/// Where a connection stands.
#[derive(Clone, Copy, Debug, PartialEq, Eq, Structural)]
pub enum ConnectionPhase {
    /// Requests are served.
    Serving,
    /// Shutdown was signalled: exchanges in flight complete, nothing new is served.
    Draining,
    /// The task has exited.
    Closed,
}

/// What happened on a connection since the last step.
#[derive(Clone, Copy, Debug, PartialEq, Eq, Structural)]
pub enum ConnectionEvent {
    /// A request arrived.
    RequestArrived,
    /// An exchange came to its end, with whatever answer.
    ExchangeFinished,
    /// Shutdown was signalled.
    Cancelled,
    /// The peer closed the connection.
    PeerClosed,
    /// The transport failed.
    TransportFailed,
}

/// What the connection task does next.
#[derive(Clone, Copy, Debug, PartialEq, Eq, Structural)]
pub enum ConnectionAction {
    /// Pass the request through the request pipeline.
    Serve,
    /// Answer the request with the connection-close response, unserved.
    Refuse,
    /// Ask the HTTP engine to close gracefully, and go on until nothing is in flight.
    Drain,
    /// Report the failure and exit.
    Report(Error),
    /// Exit.
    Exit,
    /// Nothing; wait for the next event.
    Idle,
}

/// A connection as a plain value: its phase and the number of exchanges in flight.
pub struct ConnectionState {
    pub phase: ConnectionPhase,
    pub in_flight: nat,
}

impl ConnectionState {
    /// What every reachable state satisfies: exchanges are in flight only on
    /// a connection that is not closed, draining means that at least one is,
    /// and the count fits the machine.
    pub open spec fn inv(self) -> bool {
        &&& self.in_flight <= usize::MAX
        &&& self.phase is Closed ==> self.in_flight == 0
        &&& self.phase is Draining ==> self.in_flight > 0
    }

    /// The state of a connection that has just been accepted.
    pub open spec fn accepted() -> ConnectionState {
        ConnectionState { phase: ConnectionPhase::Serving, in_flight: 0 }
    }

    /// The state of a connection whose task has exited.
    pub open spec fn closed() -> ConnectionState {
        ConnectionState { phase: ConnectionPhase::Closed, in_flight: 0 }
    }
}

/// The transition of a connection: the state after `event`, and what the task does.
pub open spec fn next(s: ConnectionState, event: ConnectionEvent) -> (ConnectionState, ConnectionAction) {
    match s.phase {
        ConnectionPhase::Closed => (s, ConnectionAction::Idle),
        _ => match event {
            ConnectionEvent::PeerClosed => (ConnectionState::closed(), ConnectionAction::Exit),
            ConnectionEvent::TransportFailed => (
                ConnectionState::closed(),
                ConnectionAction::Report(Error::Connection),
            ),
            ConnectionEvent::RequestArrived => if s.phase is Serving && s.in_flight < usize::MAX {
                (ConnectionState { in_flight: s.in_flight + 1, ..s }, ConnectionAction::Serve)
            } else {
                (s, ConnectionAction::Refuse)
            },
            ConnectionEvent::ExchangeFinished => if s.in_flight == 0 {
                (s, ConnectionAction::Idle)
            } else if s.phase is Draining && s.in_flight == 1 {
                (ConnectionState::closed(), ConnectionAction::Exit)
            } else {
                (ConnectionState { in_flight: (s.in_flight - 1) as nat, ..s }, ConnectionAction::Idle)
            },
            ConnectionEvent::Cancelled => if s.phase is Draining {
                (s, ConnectionAction::Idle)
            } else if s.in_flight == 0 {
                (ConnectionState::closed(), ConnectionAction::Exit)
            } else {
                (ConnectionState { phase: ConnectionPhase::Draining, ..s }, ConnectionAction::Drain)
            },
        },
    }
}

/// The state after a sequence of events, taken in order.
pub open spec fn run(s: ConnectionState, events: Seq<ConnectionEvent>) -> ConnectionState
    decreases events.len(),
{
    if events.len() == 0 {
        s
    } else {
        next(run(s, events.drop_last()), events.last()).0
    }
}

/// The action that the `i`-th event of a sequence brings.
pub open spec fn action_at(s: ConnectionState, events: Seq<ConnectionEvent>, i: int) -> ConnectionAction {
    next(run(s, events.take(i)), events[i]).1
}

/// Every step keeps the invariant, and so does every sequence of steps.
pub proof fn lemma_run_inv(s: ConnectionState, events: Seq<ConnectionEvent>)
    requires
        s.inv(),
    ensures
        run(s, events).inv(),
    decreases events.len(),
{
    if events.len() > 0 {
        lemma_run_inv(s, events.drop_last());
    }
}

/// A connection that no longer serves never serves again.
pub proof fn lemma_serving_never_resumes(s: ConnectionState, events: Seq<ConnectionEvent>)
    requires
        !(s.phase is Serving),
    ensures
        !(run(s, events).phase is Serving),
    decreases events.len(),
{
    if events.len() > 0 {
        lemma_serving_never_resumes(s, events.drop_last());
    }
}

/// Running a sequence of events is running its first `i` and going on from there.
pub proof fn lemma_run_from(s: ConnectionState, events: Seq<ConnectionEvent>, i: int, j: int)
    requires
        0 <= i <= j <= events.len(),
    ensures
        run(s, events.take(j)) == run(run(s, events.take(i)), events.subrange(i, j)),
    decreases j - i,
{
    if i == j {
        assert(events.subrange(i, j) =~= Seq::<ConnectionEvent>::empty());
    } else {
        lemma_run_from(s, events, i, j - 1);
        assert(events.take(j).drop_last() =~= events.take(j - 1));
        assert(events.subrange(i, j).drop_last() =~= events.subrange(i, j - 1));
        assert(events.take(j).last() == events.subrange(i, j).last());
    }
}

/// No request is served after the shutdown signal: whatever the events
/// before and after it, no event that follows a `Cancelled` brings `Serve`.
pub proof fn law_nothing_served_after_cancel(s: ConnectionState, events: Seq<ConnectionEvent>, k: int, i: int)
    requires
        0 <= k < i < events.len(),
        events[k] is Cancelled,
    ensures
        !(action_at(s, events, i) is Serve),
{
    assert(events.take(k + 1).drop_last() =~= events.take(k));
    assert(events.take(k + 1).last() == events[k]);
    let t = run(s, events.take(k + 1));
    assert(!(t.phase is Serving));
    lemma_run_from(s, events, k + 1, i);
    lemma_serving_never_resumes(t, events.subrange(k + 1, i));
}

/// The end of an exchange, whatever its answer, leaves the connection
/// serving: the failure of one exchange closes nothing, and the next request
/// on the connection is served.
pub proof fn law_exchange_end_keeps_connection(s: ConnectionState)
    requires
        s.inv(),
        s.phase is Serving,
    ensures
        next(s, ConnectionEvent::ExchangeFinished).0.phase is Serving,
        next(s, ConnectionEvent::ExchangeFinished).0.inv(),
        next(next(s, ConnectionEvent::ExchangeFinished).0, ConnectionEvent::RequestArrived).1 is Serve,
        !Error::Upstream.is_fatal() && !Error::Protocol.is_fatal(),
{
}

/// While draining, a connection exits by itself exactly when every exchange
/// that was in flight at the signal has finished: as long as fewer have
/// finished it drains on, with the rest in flight, unless its peer goes away
/// or its transport fails.
pub proof fn law_drain_completes_in_flight(s: ConnectionState, rest: Seq<ConnectionEvent>)
    requires
        s.inv(),
        s.phase is Draining,
        forall|k: int| 0 <= k < rest.len() ==> !(#[trigger] rest[k] is PeerClosed) && !(rest[k] is TransportFailed),
    ensures
        run(s, rest).phase is Closed <==> finished(rest) >= s.in_flight,
        finished(rest) < s.in_flight ==> run(s, rest) == (ConnectionState {
            phase: ConnectionPhase::Draining,
            in_flight: (s.in_flight - finished(rest)) as nat,
        }),
    decreases rest.len(),
{
    if rest.len() > 0 {
        let front = rest.drop_last();
        assert forall|k: int| 0 <= k < front.len() implies !(#[trigger] front[k] is PeerClosed) && !(
        front[k] is TransportFailed) by {
            assert(front[k] == rest[k]);
        }
        law_drain_completes_in_flight(s, front);
        lemma_run_inv(s, front);
        assert(rest.last() == rest[rest.len() - 1]);
    }
}

/// The number of exchanges that a sequence of events reports as finished.
pub open spec fn finished(events: Seq<ConnectionEvent>) -> nat
    decreases events.len(),
{
    if events.len() == 0 {
        0
    } else {
        finished(events.drop_last()) + if events.last() is ExchangeFinished { 1nat } else { 0nat }
    }
}

/// The task that serves one accepted connection.
#[derive(Debug)]
pub struct Connection {
    phase: ConnectionPhase,
    in_flight: usize,
}

impl View for Connection {
    type V = ConnectionState;

    closed spec fn view(&self) -> ConnectionState {
        ConnectionState { phase: self.phase, in_flight: self.in_flight as nat }
    }
}

impl Connection {
    #[verifier::type_invariant]
    spec fn well_formed(self) -> bool {
        self@.inv()
    }

    /// The task of a connection that has just been accepted.
    pub fn new() -> (connection: Connection)
        ensures
            connection@ == ConnectionState::accepted(),
    {
        Connection { phase: ConnectionPhase::Serving, in_flight: 0 }
    }

    /// Where the connection stands.
    pub fn phase(&self) -> (phase: ConnectionPhase)
        ensures
            phase == self@.phase,
            self@.inv(),
    {
        proof {
            use_type_invariant(self);
        }
        self.phase
    }

    /// The number of exchanges in flight.
    pub fn in_flight(&self) -> (n: usize)
        ensures
            n == self@.in_flight,
            self@.inv(),
    {
        proof {
            use_type_invariant(self);
        }
        self.in_flight
    }

    /// Takes one event and says what the task does next.
    pub fn step(&mut self, event: ConnectionEvent) -> (action: ConnectionAction)
        ensures
            old(self)@.inv(),
            final(self)@.inv(),
            (final(self)@, action) == next(old(self)@, event),
    {
        proof {
            use_type_invariant(&*self);
        }
        match self.phase {
            ConnectionPhase::Closed => ConnectionAction::Idle,
            phase => match event {
                ConnectionEvent::PeerClosed => {
                    *self = Connection { phase: ConnectionPhase::Closed, in_flight: 0 };
                    ConnectionAction::Exit
                },
                ConnectionEvent::TransportFailed => {
                    *self = Connection { phase: ConnectionPhase::Closed, in_flight: 0 };
                    ConnectionAction::Report(Error::Connection)
                },
                ConnectionEvent::RequestArrived => {
                    if matches!(phase, ConnectionPhase::Serving) && self.in_flight < usize::MAX {
                        self.in_flight = self.in_flight + 1;
                        ConnectionAction::Serve
                    } else {
                        ConnectionAction::Refuse
                    }
                },
                ConnectionEvent::ExchangeFinished => {
                    if self.in_flight == 0 {
                        ConnectionAction::Idle
                    } else if matches!(phase, ConnectionPhase::Draining) && self.in_flight == 1 {
                        *self = Connection { phase: ConnectionPhase::Closed, in_flight: 0 };
                        ConnectionAction::Exit
                    } else {
                        self.in_flight = self.in_flight - 1;
                        ConnectionAction::Idle
                    }
                },
                ConnectionEvent::Cancelled => {
                    if matches!(phase, ConnectionPhase::Draining) {
                        ConnectionAction::Idle
                    } else if self.in_flight == 0 {
                        *self = Connection { phase: ConnectionPhase::Closed, in_flight: 0 };
                        ConnectionAction::Exit
                    } else {
                        self.phase = ConnectionPhase::Draining;
                        ConnectionAction::Drain
                    }
                },
            },
        }
    }
}

} // verus!
