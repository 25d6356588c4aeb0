//! The tunnel negotiator: what becomes of one `CONNECT` request.
//!
//! A tunnel is received, answered with `200`, and, once the client's
//! connection has been handed over, either terminated (an identity is issued
//! for the target host, the TLS handshake is made with it, and the decrypted
//! stream is served as HTTP) or relayed to the origin as opaque bytes. Which
//! of the two is a matter of configuration, never of the bytes seen.

use crate::certificate::{
    issue_model, outcome_view, CertError, CertificateAuthority, CertificateIssuer, IdentityView,
    ServerIdentity,
};
use crate::error::Error;
use crate::message::{Response, ResponseView};
use crate::target::{parse_target, TargetView, TunnelTarget};
use vstd::prelude::*;

verus! {

/// What the proxy does with the traffic inside a tunnel.
#[derive(Clone, Copy, Debug, PartialEq, Eq, Structural)]
pub enum TunnelPolicy {
    /// Terminate TLS with a forged identity and serve the plaintext as HTTP.
    Intercept,
    /// Relay the bytes between client and origin unseen.
    Relay,
}

/// Where a tunnel stands.
#[derive(Clone, Debug, PartialEq, Eq)]
pub enum TunnelState {
    /// The `CONNECT` request has arrived and is not read yet.
    Received,
    /// `200` was answered; the client's connection is being handed over.
    Tunneling { target: TunnelTarget },
    /// TLS is being terminated: an identity is awaited, or, once it has been
    /// presented, the end of the handshake.
    Handshaking { target: TunnelTarget, presented: bool },
    /// The decrypted stream is served as HTTP.
    Serving { target: TunnelTarget },
    /// The bytes are relayed between client and origin.
    Relaying { target: TunnelTarget },
    /// The tunnel is over.
    Closed,
}

/// What a tunnel state holds.
pub enum TunnelStateView {
    Received,
    Tunneling { target: TargetView },
    Handshaking { target: TargetView, presented: bool },
    Serving { target: TargetView },
    Relaying { target: TargetView },
    Closed,
}

impl View for TunnelState {
    type V = TunnelStateView;

    open spec fn view(&self) -> TunnelStateView {
        match self {
            TunnelState::Received => TunnelStateView::Received,
            TunnelState::Tunneling { target } => TunnelStateView::Tunneling { target: target@ },
            TunnelState::Handshaking { target, presented } => TunnelStateView::Handshaking {
                target: target@,
                presented: *presented,
            },
            TunnelState::Serving { target } => TunnelStateView::Serving { target: target@ },
            TunnelState::Relaying { target } => TunnelStateView::Relaying { target: target@ },
            TunnelState::Closed => TunnelStateView::Closed,
        }
    }
}

/// What happened outside since the last step of a tunnel.
#[derive(Clone, Debug, PartialEq, Eq)]
pub enum TunnelEvent {
    /// The `CONNECT` request names this target.
    Requested(Vec<u8>),
    /// The client's connection was handed over.
    Upgraded,
    /// The client's connection could not be handed over.
    UpgradeFailed,
    /// An identity was issued for the target host.
    Issued(ServerIdentity),
    /// No identity could be issued for the target host.
    IssueFailed(CertError),
    /// The TLS handshake with the client is complete.
    Accepted,
    /// The TLS handshake with the client failed.
    HandshakeFailed,
    /// The client went away.
    ClientClosed,
    /// The origin went away.
    OriginClosed,
    /// Shutdown was signalled.
    Cancelled,
}

/// What an event of a tunnel holds.
pub enum TunnelEventView {
    Requested(Seq<u8>),
    Upgraded,
    UpgradeFailed,
    Issued(IdentityView),
    IssueFailed(CertError),
    Accepted,
    HandshakeFailed,
    ClientClosed,
    OriginClosed,
    Cancelled,
}

impl View for TunnelEvent {
    type V = TunnelEventView;

    open spec fn view(&self) -> TunnelEventView {
        match self {
            TunnelEvent::Requested(target) => TunnelEventView::Requested(target@),
            TunnelEvent::Upgraded => TunnelEventView::Upgraded,
            TunnelEvent::UpgradeFailed => TunnelEventView::UpgradeFailed,
            TunnelEvent::Issued(identity) => TunnelEventView::Issued(identity@),
            TunnelEvent::IssueFailed(e) => TunnelEventView::IssueFailed(*e),
            TunnelEvent::Accepted => TunnelEventView::Accepted,
            TunnelEvent::HandshakeFailed => TunnelEventView::HandshakeFailed,
            TunnelEvent::ClientClosed => TunnelEventView::ClientClosed,
            TunnelEvent::OriginClosed => TunnelEventView::OriginClosed,
            TunnelEvent::Cancelled => TunnelEventView::Cancelled,
        }
    }
}

impl TunnelEventView {
    /// Whether the event ends a tunnel whatever its state: an end went away,
    /// or shutdown was signalled.
    pub open spec fn ends(self) -> bool {
        self is ClientClosed || self is OriginClosed || self is Cancelled
    }
}

/// What the caller does next in a tunnel.
#[derive(Clone, Debug, PartialEq, Eq)]
pub enum TunnelAction {
    /// Answer the `CONNECT` with this response and close: the target is malformed.
    Reject(Response),
    /// Answer the `CONNECT` with this response and take over the client's
    /// connection; report `Upgraded` or `UpgradeFailed`.
    Establish(Response),
    /// Obtain an identity for this host; report `Issued` or `IssueFailed`.
    Issue(Vec<u8>),
    /// Make the TLS handshake with the client, presenting this identity;
    /// report `Accepted` or `HandshakeFailed`.
    Present(ServerIdentity),
    /// Serve the decrypted stream as HTTP; its requests go to this target over TLS.
    Serve(TunnelTarget),
    /// Connect to this target and relay bytes in both directions.
    Relay(TunnelTarget),
    /// Report the failure and close both sockets; nothing was forwarded.
    Abort(Error),
    /// Close both sockets.
    Close,
    /// Nothing: the event does not belong to this state of the tunnel.
    Ignore,
}

/// What an action of a tunnel holds.
pub enum TunnelActionView {
    Reject(ResponseView),
    Establish(ResponseView),
    Issue(Seq<u8>),
    Present(IdentityView),
    Serve(TargetView),
    Relay(TargetView),
    Abort(Error),
    Close,
    Ignore,
}

impl View for TunnelAction {
    type V = TunnelActionView;

    open spec fn view(&self) -> TunnelActionView {
        match self {
            TunnelAction::Reject(response) => TunnelActionView::Reject(response@),
            TunnelAction::Establish(response) => TunnelActionView::Establish(response@),
            TunnelAction::Issue(host) => TunnelActionView::Issue(host@),
            TunnelAction::Present(identity) => TunnelActionView::Present(identity@),
            TunnelAction::Serve(target) => TunnelActionView::Serve(target@),
            TunnelAction::Relay(target) => TunnelActionView::Relay(target@),
            TunnelAction::Abort(e) => TunnelActionView::Abort(*e),
            TunnelAction::Close => TunnelActionView::Close,
            TunnelAction::Ignore => TunnelActionView::Ignore,
        }
    }
}

/// What an event that ends the tunnel brings, and what any other event
/// brings where the state has no use for it.
pub open spec fn otherwise(state: TunnelStateView, event: TunnelEventView) -> (
    TunnelStateView,
    TunnelActionView,
) {
    if event.ends() {
        (TunnelStateView::Closed, TunnelActionView::Close)
    } else {
        (state, TunnelActionView::Ignore)
    }
}

/// The transition of a tunnel: the state after `event`, and what the caller does.
pub open spec fn next(policy: TunnelPolicy, state: TunnelStateView, event: TunnelEventView) -> (
    TunnelStateView,
    TunnelActionView,
) {
    match state {
        TunnelStateView::Received => match event {
            TunnelEventView::Requested(bytes) => match parse_target(bytes) {
                Ok(target) => (
                    TunnelStateView::Tunneling { target },
                    TunnelActionView::Establish(ResponseView::established()),
                ),
                Err(_) => (TunnelStateView::Closed, TunnelActionView::Reject(ResponseView::bad_request())),
            },
            _ => otherwise(state, event),
        },
        TunnelStateView::Tunneling { target } => match event {
            TunnelEventView::Upgraded => match policy {
                TunnelPolicy::Intercept => (
                    TunnelStateView::Handshaking { target, presented: false },
                    TunnelActionView::Issue(target.host),
                ),
                TunnelPolicy::Relay => (TunnelStateView::Relaying { target }, TunnelActionView::Relay(target)),
            },
            TunnelEventView::UpgradeFailed => (
                TunnelStateView::Closed,
                TunnelActionView::Abort(Error::Connection),
            ),
            _ => otherwise(state, event),
        },
        TunnelStateView::Handshaking { target, presented } => match event {
            TunnelEventView::Issued(identity) => if presented {
                (state, TunnelActionView::Ignore)
            } else {
                (
                    TunnelStateView::Handshaking { target, presented: true },
                    TunnelActionView::Present(identity),
                )
            },
            TunnelEventView::IssueFailed(_) => if presented {
                (state, TunnelActionView::Ignore)
            } else {
                (TunnelStateView::Closed, TunnelActionView::Abort(Error::Cert))
            },
            TunnelEventView::Accepted => if presented {
                (TunnelStateView::Serving { target }, TunnelActionView::Serve(target))
            } else {
                (state, TunnelActionView::Ignore)
            },
            TunnelEventView::HandshakeFailed => if presented {
                (TunnelStateView::Closed, TunnelActionView::Abort(Error::Handshake))
            } else {
                (state, TunnelActionView::Ignore)
            },
            _ => otherwise(state, event),
        },
        TunnelStateView::Serving { target } => otherwise(state, event),
        TunnelStateView::Relaying { target } => otherwise(state, event),
        TunnelStateView::Closed => (state, TunnelActionView::Ignore),
    }
}

/// The state after a sequence of events, taken in order.
pub open spec fn run(policy: TunnelPolicy, state: TunnelStateView, events: Seq<TunnelEventView>) -> TunnelStateView
    decreases events.len(),
{
    if events.len() == 0 {
        state
    } else {
        next(policy, run(policy, state, events.drop_last()), events.last()).0
    }
}

/// The action that the `i`-th event of a sequence brings.
pub open spec fn action_at(
    policy: TunnelPolicy,
    state: TunnelStateView,
    events: Seq<TunnelEventView>,
    i: int,
) -> TunnelActionView {
    next(policy, run(policy, state, events.take(i)), events[i]).1
}

/// Whether `event` is a `CONNECT` request for `target`.
pub open spec fn asks_for(event: TunnelEventView, target: TargetView) -> bool {
    event matches TunnelEventView::Requested(bytes) && parse_target(bytes) == Ok::<
        TargetView,
        crate::target::TargetError,
    >(target)
}

/// Whether one of the first `n` events is a `CONNECT` request for `target`.
pub open spec fn was_requested(events: Seq<TunnelEventView>, target: TargetView, n: int) -> bool {
    exists|a: int| 0 <= a < n && a < events.len() && asks_for(#[trigger] events[a], target)
}

/// Whether, among the first `n` events, an identity was issued after a
/// `CONNECT` request for `target`.
pub open spec fn was_issued(events: Seq<TunnelEventView>, target: TargetView, n: int) -> bool {
    exists|b: int|
        0 <= b < n && b < events.len() && (#[trigger] events[b]) is Issued && was_requested(
            events,
            target,
            b,
        )
}

/// Whether, among the first `n` events, a TLS handshake was completed after
/// an identity was issued after a `CONNECT` request for `target`.
pub open spec fn was_accepted(events: Seq<TunnelEventView>, target: TargetView, n: int) -> bool {
    exists|c: int|
        0 <= c < n && c < events.len() && (#[trigger] events[c]) is Accepted && was_issued(
            events,
            target,
            c,
        )
}

/// What the events so far must hold for a tunnel to stand in `state`.
pub open spec fn history(policy: TunnelPolicy, state: TunnelStateView, events: Seq<TunnelEventView>) -> bool {
    match state {
        TunnelStateView::Received => true,
        TunnelStateView::Tunneling { target } => was_requested(events, target, events.len() as int),
        TunnelStateView::Handshaking { target, presented } => policy is Intercept && if presented {
            was_issued(events, target, events.len() as int)
        } else {
            was_requested(events, target, events.len() as int)
        },
        TunnelStateView::Serving { target } => policy is Intercept && was_accepted(
            events,
            target,
            events.len() as int,
        ),
        TunnelStateView::Relaying { target } => policy is Relay && was_requested(
            events,
            target,
            events.len() as int,
        ),
        TunnelStateView::Closed => true,
    }
}

proof fn lemma_requested_extends(front: Seq<TunnelEventView>, events: Seq<TunnelEventView>, target: TargetView, n: int)
    requires
        front.len() <= events.len(),
        forall|k: int| 0 <= k < front.len() ==> front[k] == events[k],
        was_requested(front, target, n),
    ensures
        was_requested(events, target, n),
{
    let a = choose|a: int| 0 <= a < n && a < front.len() && asks_for(#[trigger] front[a], target);
    assert(asks_for(events[a], target));
}

proof fn lemma_issued_extends(front: Seq<TunnelEventView>, events: Seq<TunnelEventView>, target: TargetView, n: int)
    requires
        front.len() <= events.len(),
        forall|k: int| 0 <= k < front.len() ==> front[k] == events[k],
        was_issued(front, target, n),
    ensures
        was_issued(events, target, n),
{
    let b = choose|b: int|
        0 <= b < n && b < front.len() && (#[trigger] front[b]) is Issued && was_requested(front, target, b);
    lemma_requested_extends(front, events, target, b);
    assert(events[b] is Issued);
}

proof fn lemma_accepted_extends(front: Seq<TunnelEventView>, events: Seq<TunnelEventView>, target: TargetView, n: int)
    requires
        front.len() <= events.len(),
        forall|k: int| 0 <= k < front.len() ==> front[k] == events[k],
        was_accepted(front, target, n),
    ensures
        was_accepted(events, target, n),
{
    let c = choose|c: int|
        0 <= c < n && c < front.len() && (#[trigger] front[c]) is Accepted && was_issued(front, target, c);
    lemma_issued_extends(front, events, target, c);
    assert(events[c] is Accepted);
}

/// A tunnel stands in a state only if the events so far brought it there:
/// it holds a target only after a well-formed `CONNECT` for that target, has
/// presented an identity only after one was issued, and serves only after
/// the handshake was completed.
pub proof fn lemma_history(policy: TunnelPolicy, events: Seq<TunnelEventView>)
    ensures
        history(policy, run(policy, TunnelStateView::Received, events), events),
    decreases events.len(),
{
    if events.len() > 0 {
        let front = events.drop_last();
        let n = front.len() as int;
        lemma_history(policy, front);
        let before = run(policy, TunnelStateView::Received, front);
        let after = run(policy, TunnelStateView::Received, events);
        assert(after == next(policy, before, events.last()).0);
        assert(events[n] == events.last());
        match before {
            TunnelStateView::Received => {
                if after is Tunneling {
                    assert(asks_for(events[n], after->Tunneling_target));
                }
            },
            TunnelStateView::Tunneling { target } => {
                lemma_requested_extends(front, events, target, n);
            },
            TunnelStateView::Handshaking { target, presented } => {
                if presented {
                    lemma_issued_extends(front, events, target, n);
                    if after is Serving {
                        assert(events[n] is Accepted);
                    }
                } else {
                    lemma_requested_extends(front, events, target, n);
                    if after matches TunnelStateView::Handshaking { target: t, presented: true } {
                        assert(events[n] is Issued);
                    }
                }
            },
            TunnelStateView::Serving { target } => {
                lemma_accepted_extends(front, events, target, n);
            },
            TunnelStateView::Relaying { target } => {
                lemma_requested_extends(front, events, target, n);
            },
            TunnelStateView::Closed => {},
        }
    }
}

/// The plaintext of a tunnel is served only after the handshake: an event
/// brings `Serve` only if it is the completion of a TLS handshake, the proxy
/// intercepts, and before it an identity was issued after a well-formed
/// `CONNECT` request for the very target that is served.
pub proof fn law_serve_after_handshake(policy: TunnelPolicy, events: Seq<TunnelEventView>, i: int)
    requires
        0 <= i < events.len(),
        action_at(policy, TunnelStateView::Received, events, i) is Serve,
    ensures
        policy is Intercept,
        events[i] is Accepted,
        was_issued(events, action_at(policy, TunnelStateView::Received, events, i)->Serve_0, i),
{
    let front = events.take(i);
    lemma_history(policy, front);
    let before = run(policy, TunnelStateView::Received, front);
    let target = action_at(policy, TunnelStateView::Received, events, i)->Serve_0;
    assert(before == TunnelStateView::Handshaking { target, presented: true });
    lemma_issued_extends(front, events, target, i);
}

/// Bytes are relayed unseen only where that is configured, and only to the
/// target of a well-formed `CONNECT` request.
pub proof fn law_relay_by_configuration(policy: TunnelPolicy, events: Seq<TunnelEventView>, i: int)
    requires
        0 <= i < events.len(),
        action_at(policy, TunnelStateView::Received, events, i) is Relay,
    ensures
        policy is Relay,
        events[i] is Upgraded,
        was_requested(events, action_at(policy, TunnelStateView::Received, events, i)->Relay_0, i),
{
    let front = events.take(i);
    lemma_history(policy, front);
    let target = action_at(policy, TunnelStateView::Received, events, i)->Relay_0;
    lemma_requested_extends(front, events, target, i);
}

/// A closed tunnel is over: it stays closed and no event brings any action.
pub proof fn law_closed_is_terminal(policy: TunnelPolicy, events: Seq<TunnelEventView>, i: int)
    requires
        0 <= i < events.len(),
    ensures
        run(policy, TunnelStateView::Closed, events) is Closed,
        action_at(policy, TunnelStateView::Closed, events, i) is Ignore,
{
    lemma_closed_stays(policy, events);
    lemma_closed_stays(policy, events.take(i));
}

proof fn lemma_closed_stays(policy: TunnelPolicy, events: Seq<TunnelEventView>)
    ensures
        run(policy, TunnelStateView::Closed, events) is Closed,
    decreases events.len(),
{
    if events.len() > 0 {
        lemma_closed_stays(policy, events.drop_last());
    }
}

/// What a tunnel is denied for closes it at once, before a byte is
/// forwarded: a malformed target is answered with `400`, a failure to issue
/// an identity and a failed handshake abort the tunnel, and each leaves it
/// closed. The failures are those of one tunnel: none is fatal to the proxy.
pub proof fn law_failures_close(policy: TunnelPolicy, target: TargetView, bytes: Seq<u8>, e: CertError)
    ensures
        parse_target(bytes) is Err ==> next(policy, TunnelStateView::Received, TunnelEventView::Requested(bytes))
            == (TunnelStateView::Closed, TunnelActionView::Reject(ResponseView::bad_request())),
        next(
            policy,
            TunnelStateView::Handshaking { target, presented: false },
            TunnelEventView::IssueFailed(e),
        ) == (TunnelStateView::Closed, TunnelActionView::Abort(Error::Cert)),
        next(
            policy,
            TunnelStateView::Handshaking { target, presented: true },
            TunnelEventView::HandshakeFailed,
        ) == (TunnelStateView::Closed, TunnelActionView::Abort(Error::Handshake)),
        !Error::Cert.is_fatal() && !Error::Handshake.is_fatal(),
        ResponseView::bad_request().status == 400,
{
}

/// What an attempt to issue reports to the tunnel.
pub open spec fn issue_event(outcome: Result<IdentityView, CertError>) -> TunnelEventView {
    match outcome {
        Ok(identity) => TunnelEventView::Issued(identity),
        Err(e) => TunnelEventView::IssueFailed(e),
    }
}

/// One `CONNECT` tunnel.
#[derive(Debug)]
pub struct Tunnel {
    policy: TunnelPolicy,
    state: TunnelState,
}

impl Tunnel {
    /// What the proxy does with the traffic inside this tunnel.
    pub closed spec fn policy(&self) -> TunnelPolicy {
        self.policy
    }

    /// Where the tunnel stands.
    pub closed spec fn state(&self) -> TunnelStateView {
        self.state@
    }

    /// A tunnel whose `CONNECT` request has arrived.
    pub fn new(policy: TunnelPolicy) -> (tunnel: Tunnel)
        ensures
            tunnel.policy() == policy,
            tunnel.state() == TunnelStateView::Received,
    {
        Tunnel { policy, state: TunnelState::Received }
    }

    /// Where the tunnel stands.
    pub fn current(&self) -> (state: &TunnelState)
        ensures
            state@ == self.state(),
    {
        &self.state
    }

    /// What the proxy does with the traffic inside this tunnel.
    pub fn tunnel_policy(&self) -> (policy: TunnelPolicy)
        ensures
            policy == self.policy(),
    {
        self.policy
    }

    /// Whether the tunnel is over.
    pub fn is_closed(&self) -> (closed: bool)
        ensures
            closed == (self.state() is Closed),
    {
        match &self.state {
            TunnelState::Closed => true,
            _ => false,
        }
    }

    /// Whether the tunnel awaits an identity for its target host.
    pub fn awaits_identity(&self) -> (awaited: bool)
        ensures
            awaited == (self.state() matches TunnelStateView::Handshaking { presented, .. } && !presented),
    {
        match &self.state {
            TunnelState::Handshaking { target, presented } => !*presented,
            _ => false,
        }
    }

    /// Takes one event and says what the caller does next.
    pub fn step(&mut self, event: TunnelEvent) -> (action: TunnelAction)
        ensures
            final(self).policy() == old(self).policy(),
            (final(self).state(), action@) == next(old(self).policy(), old(self).state(), event@),
    {
        let mut state = TunnelState::Closed;
        std::mem::swap(&mut state, &mut self.state);
        let (after, action) = advance(self.policy, state, event);
        self.state = after;
        action
    }

    /// Obtains the identity that the tunnel awaits from `issuer`, cached or
    /// freshly minted, and takes the step that the outcome brings. A tunnel
    /// that awaits no identity is left as it is, and the issuer is not asked.
    pub fn issue_with<CA: CertificateAuthority>(&mut self, issuer: &mut CertificateIssuer<CA>) -> (action:
        TunnelAction)
        ensures
            final(self).policy() == old(self).policy(),
            match old(self).state() {
                TunnelStateView::Handshaking { target, presented: false } => {
                    &&& exists|minted: Result<IdentityView, CertError>| #[trigger]
                        issued_step(
                            old(self).policy(),
                            target,
                            old(issuer).cache(),
                            minted,
                            final(issuer).cache(),
                            final(self).state(),
                            action@,
                        )
                    &&& old(issuer).cache().contains_key(target.host) ==> action@
                        == TunnelActionView::Present(old(issuer).cache()[target.host])
                },
                _ => {
                    &&& action@ is Ignore
                    &&& final(self).state() == old(self).state()
                    &&& final(issuer).cache() == old(issuer).cache()
                },
            },
    {
        let mut state = TunnelState::Closed;
        std::mem::swap(&mut state, &mut self.state);
        match state {
            TunnelState::Handshaking { target, presented: false } => {
                let ghost held = target@;
                let issued = issuer.issue(target.host.as_slice());
                let ghost outcome = outcome_view(issued);
                let ghost minted = choose|minted: Result<IdentityView, CertError>| #[trigger]
                    issue_model(old(issuer).cache(), held.host, minted) == (issuer.cache(), outcome);
                let event = match issued {
                    Ok(identity) => TunnelEvent::Issued(identity),
                    Err(e) => TunnelEvent::IssueFailed(e),
                };
                let (after, action) = advance(
                    self.policy,
                    TunnelState::Handshaking { target, presented: false },
                    event,
                );
                self.state = after;
                assert(issued_step(
                    self.policy(),
                    held,
                    old(issuer).cache(),
                    minted,
                    issuer.cache(),
                    self.state(),
                    action@,
                ));
                action
            },
            other => {
                self.state = other;
                TunnelAction::Ignore
            },
        }
    }
}

/// Whether a tunnel that awaited an identity for `target` and an issuer with
/// the cache `before` have come to `state`, `action` and the cache `after`
/// by issuing, where the authority would mint `minted` if asked.
pub open spec fn issued_step(
    policy: TunnelPolicy,
    target: TargetView,
    before: Map<Seq<u8>, IdentityView>,
    minted: Result<IdentityView, CertError>,
    after: Map<Seq<u8>, IdentityView>,
    state: TunnelStateView,
    action: TunnelActionView,
) -> bool {
    &&& issue_model(before, target.host, minted).0 == after
    &&& (state, action) == next(
        policy,
        TunnelStateView::Handshaking { target, presented: false },
        issue_event(issue_model(before, target.host, minted).1),
    )
}

/// The transition of a tunnel, on the values themselves.
fn advance(policy: TunnelPolicy, state: TunnelState, event: TunnelEvent) -> (r: (TunnelState, TunnelAction))
    ensures
        (r.0@, r.1@) == next(policy, state@, event@),
{
    match state {
        TunnelState::Received => match event {
            TunnelEvent::Requested(bytes) => match TunnelTarget::parse(bytes.as_slice()) {
                Ok(target) => (TunnelState::Tunneling { target }, TunnelAction::Establish(Response::established())),
                Err(_) => (TunnelState::Closed, TunnelAction::Reject(Response::bad_request())),
            },
            other => settle(TunnelState::Received, other),
        },
        TunnelState::Tunneling { target } => match event {
            TunnelEvent::Upgraded => match policy {
                TunnelPolicy::Intercept => {
                    let host = vstd::slice::slice_to_vec(target.host.as_slice());
                    (TunnelState::Handshaking { target, presented: false }, TunnelAction::Issue(host))
                },
                TunnelPolicy::Relay => {
                    let copy = target.duplicate();
                    (TunnelState::Relaying { target }, TunnelAction::Relay(copy))
                },
            },
            TunnelEvent::UpgradeFailed => (TunnelState::Closed, TunnelAction::Abort(Error::Connection)),
            other => settle(TunnelState::Tunneling { target }, other),
        },
        TunnelState::Handshaking { target, presented } => match event {
            TunnelEvent::Issued(identity) => if presented {
                (TunnelState::Handshaking { target, presented }, TunnelAction::Ignore)
            } else {
                (TunnelState::Handshaking { target, presented: true }, TunnelAction::Present(identity))
            },
            TunnelEvent::IssueFailed(_) => if presented {
                (TunnelState::Handshaking { target, presented }, TunnelAction::Ignore)
            } else {
                (TunnelState::Closed, TunnelAction::Abort(Error::Cert))
            },
            TunnelEvent::Accepted => if presented {
                let copy = target.duplicate();
                (TunnelState::Serving { target }, TunnelAction::Serve(copy))
            } else {
                (TunnelState::Handshaking { target, presented }, TunnelAction::Ignore)
            },
            TunnelEvent::HandshakeFailed => if presented {
                (TunnelState::Closed, TunnelAction::Abort(Error::Handshake))
            } else {
                (TunnelState::Handshaking { target, presented }, TunnelAction::Ignore)
            },
            other => settle(TunnelState::Handshaking { target, presented }, other),
        },
        TunnelState::Serving { target } => settle(TunnelState::Serving { target }, event),
        TunnelState::Relaying { target } => settle(TunnelState::Relaying { target }, event),
        TunnelState::Closed => (TunnelState::Closed, TunnelAction::Ignore),
    }
}

/// What an event brings where the state has no use for it.
fn settle(state: TunnelState, event: TunnelEvent) -> (r: (TunnelState, TunnelAction))
    ensures
        (r.0@, r.1@) == otherwise(state@, event@),
{
    match event {
        TunnelEvent::ClientClosed => (TunnelState::Closed, TunnelAction::Close),
        TunnelEvent::OriginClosed => (TunnelState::Closed, TunnelAction::Close),
        TunnelEvent::Cancelled => (TunnelState::Closed, TunnelAction::Close),
        _ => (state, TunnelAction::Ignore),
    }
}

} // verus!
