//! The supervision of the accept loop.
//!
//! The library performs no I/O. [`Proxy::start`](crate::proxy::Proxy::start)
//! and [`Supervisor::step`] say what the accept loop does next; the caller
//! binds, accepts, spawns and reports, and hands back what happened as an
//! [`Event`].

use crate::address::SocketAddress;
use crate::error::Error;
use crate::handler::HttpContext;
use crate::proxy::{ServerTuning, Service};
use crate::tunnel::TunnelPolicy;
use vstd::prelude::*;

verus! {

/// Where the accept loop stands.
#[derive(Clone, Copy, Debug, PartialEq, Eq, Structural)]
pub enum Phase {
    /// The listening address is being bound.
    Binding,
    /// Connections are admitted.
    Accepting,
    /// Shutdown was signalled: nothing is admitted, live connections finish.
    Draining,
    /// Shutdown is complete: every connection task has exited.
    Stopped,
    /// The proxy could not start.
    Failed,
}

/// What happened outside since the last step.
#[derive(Clone, Copy, Debug, PartialEq, Eq, Structural)]
pub enum Event {
    /// The listening address was bound.
    Bound,
    /// The listening address could not be bound.
    BindFailed,
    /// A client connected from the given address.
    Accepted(SocketAddress),
    /// One attempt to accept a connection failed.
    AcceptFailed,
    /// The graceful-shutdown signal resolved.
    Shutdown,
    /// One connection task exited.
    TaskExited,
}

/// What the caller does next.
#[derive(Clone, Copy, Debug, PartialEq, Eq, Structural)]
pub enum Action {
    /// Bind the given address and report `Bound` or `BindFailed`.
    Bind(SocketAddress),
    /// Begin accepting connections.
    Listen,
    /// Spawn a task that serves the connection from the given client, and go on accepting.
    Spawn(SocketAddress),
    /// Close the connection from the given client unserved.
    Refuse(SocketAddress),
    /// Report the failure and go on.
    Report(Error),
    /// Stop accepting, ask every connection task to close gracefully, and wait for them.
    Drain,
    /// Nothing; wait for the next event.
    Idle,
    /// Return success: the proxy has shut down.
    Finish,
    /// Return the failure: the proxy did not start.
    Fail(Error),
}

/// The accept loop as a plain value: its phase and the number of live connection tasks.
pub struct State {
    pub phase: Phase,
    pub active: nat,
}

impl State {
    /// What every reachable state satisfies: tasks are live only while
    /// accepting or draining, draining means that at least one task is left,
    /// and the count fits the machine.
    pub open spec fn inv(self) -> bool {
        &&& self.active <= usize::MAX
        &&& (self.phase is Binding || self.phase is Stopped || self.phase is Failed) ==> self.active == 0
        &&& self.phase is Draining ==> self.active > 0
    }

    /// Whether new connections can still be admitted from this state on.
    pub open spec fn admits(self) -> bool {
        self.phase is Binding || self.phase is Accepting
    }
}

/// The transition of the accept loop: the state after `event`, and what the caller does.
pub open spec fn next(s: State, event: Event) -> (State, Action) {
    match s.phase {
        Phase::Binding => match event {
            Event::Bound => (State { phase: Phase::Accepting, active: 0 }, Action::Listen),
            Event::BindFailed => (State { phase: Phase::Failed, active: 0 }, Action::Fail(Error::Bind)),
            Event::Shutdown => (State { phase: Phase::Stopped, active: 0 }, Action::Finish),
            _ => (s, Action::Idle),
        },
        Phase::Accepting => match event {
            Event::Accepted(client) => if s.active < usize::MAX {
                (State { phase: Phase::Accepting, active: s.active + 1 }, Action::Spawn(client))
            } else {
                (s, Action::Report(Error::Accept))
            },
            Event::AcceptFailed => (s, Action::Report(Error::Accept)),
            Event::TaskExited => if s.active > 0 {
                (State { phase: Phase::Accepting, active: (s.active - 1) as nat }, Action::Idle)
            } else {
                (s, Action::Idle)
            },
            Event::Shutdown => if s.active == 0 {
                (State { phase: Phase::Stopped, active: 0 }, Action::Finish)
            } else {
                (State { phase: Phase::Draining, active: s.active }, Action::Drain)
            },
            _ => (s, Action::Idle),
        },
        Phase::Draining => match event {
            Event::Accepted(client) => (s, Action::Refuse(client)),
            Event::TaskExited => if s.active <= 1 {
                (State { phase: Phase::Stopped, active: 0 }, Action::Finish)
            } else {
                (State { phase: Phase::Draining, active: (s.active - 1) as nat }, Action::Idle)
            },
            _ => (s, Action::Idle),
        },
        Phase::Stopped => (s, Action::Idle),
        Phase::Failed => (s, Action::Idle),
    }
}

/// The state after a sequence of events, taken in order.
pub open spec fn run(s: State, events: Seq<Event>) -> State
    decreases events.len(),
{
    if events.len() == 0 {
        s
    } else {
        next(run(s, events.drop_last()), events.last()).0
    }
}

/// The action that the `i`-th event of a sequence brings.
pub open spec fn action_at(s: State, events: Seq<Event>, i: int) -> Action {
    next(run(s, events.take(i)), events[i]).1
}

/// The number of connection tasks that a sequence of events reports as exited.
pub open spec fn exits(events: Seq<Event>) -> nat
    decreases events.len(),
{
    if events.len() == 0 {
        0
    } else {
        exits(events.drop_last()) + if events.last() is TaskExited { 1nat } else { 0nat }
    }
}

/// Running two sequences of events one after the other is running their concatenation.
pub proof fn lemma_run_append(s: State, first: Seq<Event>, second: Seq<Event>)
    ensures
        run(s, first + second) == run(run(s, first), second),
    decreases second.len(),
{
    if second.len() == 0 {
        assert(first + second =~= first);
    } else {
        assert((first + second).drop_last() =~= first + second.drop_last());
        assert((first + second).last() == second.last());
        lemma_run_append(s, first, second.drop_last());
    }
}

/// Every step keeps the invariant, and so does every sequence of steps.
pub proof fn lemma_run_inv(s: State, events: Seq<Event>)
    requires
        s.inv(),
    ensures
        run(s, events).inv(),
    decreases events.len(),
{
    if events.len() > 0 {
        lemma_run_inv(s, events.drop_last());
    }
}

/// A proxy that has stopped admitting connections never admits one again.
pub proof fn lemma_admission_never_resumes(s: State, events: Seq<Event>)
    requires
        !s.admits(),
    ensures
        !run(s, events).admits(),
    decreases events.len(),
{
    if events.len() > 0 {
        lemma_admission_never_resumes(s, events.drop_last());
    }
}

/// No connection is admitted after the shutdown signal: whatever the events
/// before and after it, no event that follows a `Shutdown` brings `Spawn`.
pub proof fn law_no_admission_after_shutdown(s: State, events: Seq<Event>, k: int, i: int)
    requires
        0 <= k < i < events.len(),
        events[k] is Shutdown,
    ensures
        !(action_at(s, events, i) is Spawn),
        !run(s, events.take(i)).admits(),
{
    let before = events.take(k);
    let upto = events.take(k + 1);
    let between = events.subrange(k + 1, i);
    assert(upto.drop_last() =~= before);
    assert(upto.last() == events[k]);
    assert(!run(s, upto).admits());
    assert(events.take(i) =~= upto + between);
    lemma_run_append(s, upto, between);
    lemma_admission_never_resumes(run(s, upto), between);
}

/// While draining, the proxy stops exactly when as many tasks have exited as were live.
proof fn lemma_drain(d: State, rest: Seq<Event>)
    requires
        d.inv(),
        d.phase is Draining || d.phase is Stopped,
    ensures
        run(d, rest).phase is Stopped <==> exits(rest) >= d.active,
        !(run(d, rest).phase is Stopped) ==> run(d, rest) == (State {
            phase: Phase::Draining,
            active: (d.active - exits(rest)) as nat,
        }),
        run(d, rest).phase is Stopped ==> run(d, rest).active == 0,
    decreases rest.len(),
{
    if rest.len() > 0 {
        lemma_drain(d, rest.drop_last());
        lemma_run_inv(d, rest.drop_last());
    }
}

/// Shutdown completes only after every connection task has exited: from a
/// proxy that is accepting with `s.active` live tasks, the events `Shutdown`
/// and `rest` leave it stopped exactly if `rest` reports at least `s.active`
/// exits, and leave it draining with the remaining tasks otherwise.
pub proof fn law_shutdown_waits_for_tasks(s: State, rest: Seq<Event>)
    requires
        s.inv(),
        s.phase is Accepting,
    ensures
        run(s, seq![Event::Shutdown] + rest).phase is Stopped <==> exits(rest) >= s.active,
        exits(rest) < s.active ==> run(s, seq![Event::Shutdown] + rest) == (State {
            phase: Phase::Draining,
            active: (s.active - exits(rest)) as nat,
        }),
{
    let signal = seq![Event::Shutdown];
    assert(signal.drop_last() =~= Seq::<Event>::empty());
    assert(signal.last() == Event::Shutdown);
    assert(run(s, signal.drop_last()) == s);
    let d = run(s, signal);
    assert(d == next(s, Event::Shutdown).0);
    lemma_run_append(s, signal, rest);
    lemma_drain(d, rest);
}

/// Only a failure to bind stops the proxy: a report of any other failure
/// leaves the accept loop as it was, and the proxy fails only on `BindFailed`
/// while binding.
pub proof fn law_only_bind_failure_is_fatal(s: State, event: Event)
    ensures
        next(s, event).1 is Report ==> next(s, event).0 == s,
        next(s, event).1 is Fail ==> event is BindFailed && s.phase is Binding
            && next(s, event).1 == Action::Fail(Error::Bind),
        next(s, event).0.phase is Failed && !(s.phase is Failed) ==> event is BindFailed,
{
}

/// A proxy that did not fail to bind never fails: a sequence of events
/// without `BindFailed` leaves no proxy failed that was not failed before.
pub proof fn law_failure_needs_bind_failure(s: State, events: Seq<Event>)
    requires
        !(s.phase is Failed),
        forall|k: int| 0 <= k < events.len() ==> !(#[trigger] events[k] is BindFailed),
    ensures
        !(run(s, events).phase is Failed),
    decreases events.len(),
{
    if events.len() > 0 {
        let front = events.drop_last();
        assert forall|k: int| 0 <= k < front.len() implies !(#[trigger] front[k] is BindFailed) by {
            assert(front[k] == events[k]);
        }
        law_failure_needs_bind_failure(s, front);
        assert(!(events[events.len() - 1] is BindFailed));
    }
}

/// The accept loop of a running proxy.
pub struct Supervisor {
    phase: Phase,
    active: usize,
    tuning: ServerTuning,
    policy: TunnelPolicy,
}

impl View for Supervisor {
    type V = State;

    closed spec fn view(&self) -> State {
        State { phase: self.phase, active: self.active as nat }
    }
}

impl Supervisor {
    #[verifier::type_invariant]
    spec fn well_formed(self) -> bool {
        self@.inv()
    }

    /// The supervisor of a proxy that starts: binding, or accepting at once
    /// where the caller has bound the listener.
    pub(crate) fn new(bound: bool, tuning: ServerTuning, policy: TunnelPolicy) -> (supervisor: Supervisor)
        ensures
            supervisor@ == (State { phase: if bound { Phase::Accepting } else { Phase::Binding }, active: 0 }),
            supervisor.tuning() == tuning,
            supervisor.policy() == policy,
    {
        Supervisor { phase: if bound { Phase::Accepting } else { Phase::Binding }, active: 0, tuning, policy }
    }

    /// The server tuning of every connection of this proxy.
    pub closed spec fn tuning(&self) -> ServerTuning {
        self.tuning
    }

    /// What this proxy does with the traffic inside a tunnel.
    pub closed spec fn policy(&self) -> TunnelPolicy {
        self.policy
    }

    /// Where the accept loop stands.
    pub fn phase(&self) -> (phase: Phase)
        ensures
            phase == self@.phase,
            self@.inv(),
    {
        proof {
            use_type_invariant(self);
        }
        self.phase
    }

    /// The number of connection tasks that were spawned and have not exited.
    pub fn active(&self) -> (active: usize)
        ensures
            active == self@.active,
            self@.inv(),
    {
        proof {
            use_type_invariant(self);
        }
        self.active
    }

    /// Whether the proxy has come to its end, by shutdown or by failing to start.
    pub fn is_finished(&self) -> (finished: bool)
        ensures
            finished == (self@.phase is Stopped || self@.phase is Failed),
    {
        match self.phase {
            Phase::Stopped => true,
            Phase::Failed => true,
            _ => false,
        }
    }

    /// The service that a connection task runs for the connection of
    /// `client`: the tuning and the tunnel policy of the proxy, and the
    /// client's address for the handlers.
    pub fn connection(&self, client: SocketAddress) -> (service: Service)
        ensures
            service.tuning() == self.tuning(),
            service.policy() == self.policy(),
            service.context() == (HttpContext { client_addr: client }),
    {
        Service::new(self.tuning, self.policy, HttpContext { client_addr: client })
    }

    /// Takes one event and says what the caller does next.
    pub fn step(&mut self, event: Event) -> (action: Action)
        ensures
            old(self)@.inv(),
            final(self)@.inv(),
            final(self).tuning() == old(self).tuning(),
            final(self).policy() == old(self).policy(),
            (final(self)@, action) == next(old(self)@, event),
    {
        proof {
            use_type_invariant(&*self);
        }
        match self.phase {
            Phase::Binding => match event {
                Event::Bound => {
                    self.phase = Phase::Accepting;
                    Action::Listen
                },
                Event::BindFailed => {
                    self.phase = Phase::Failed;
                    Action::Fail(Error::Bind)
                },
                Event::Shutdown => {
                    self.phase = Phase::Stopped;
                    Action::Finish
                },
                _ => Action::Idle,
            },
            Phase::Accepting => match event {
                Event::Accepted(client) => {
                    if self.active < usize::MAX {
                        self.active = self.active + 1;
                        Action::Spawn(client)
                    } else {
                        Action::Report(Error::Accept)
                    }
                },
                Event::AcceptFailed => Action::Report(Error::Accept),
                Event::TaskExited => {
                    if self.active > 0 {
                        self.active = self.active - 1;
                    }
                    Action::Idle
                },
                Event::Shutdown => {
                    if self.active == 0 {
                        self.phase = Phase::Stopped;
                        Action::Finish
                    } else {
                        self.phase = Phase::Draining;
                        Action::Drain
                    }
                },
                _ => Action::Idle,
            },
            Phase::Draining => match event {
                Event::Accepted(client) => Action::Refuse(client),
                Event::TaskExited => {
                    if self.active <= 1 {
                        *self = Supervisor {
                            phase: Phase::Stopped,
                            active: 0,
                            tuning: self.tuning,
                            policy: self.policy,
                        };
                        Action::Finish
                    } else {
                        self.active = self.active - 1;
                        Action::Idle
                    }
                },
                _ => Action::Idle,
            },
            Phase::Stopped => Action::Idle,
            Phase::Failed => Action::Idle,
        }
    }
}

} // verus!
