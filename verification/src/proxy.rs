//! The proxy as configured: where it listens, how its connections are
//! tuned, what it does with tunnels, and the service that it is to each
//! connection.

use crate::address::SocketAddress;
use crate::handler::{DecisionView, HttpContext, HttpHandler};
use crate::message::Request;
use crate::pipeline::{decided, Exchange, ExchangeAction};
use crate::supervisor::{Action, Supervisor};
use crate::tunnel::{Tunnel, TunnelPolicy, TunnelStateView};
use vstd::prelude::*;

verus! {

/// Where the proxy listens: an address still to be bound, or a listener that
/// the caller has bound already.
#[derive(Clone, Copy, Debug, PartialEq, Eq, Structural)]
pub enum AddrOrListener {
    Addr(SocketAddress),
    Listener,
}

/// How the HTTP server side of each connection is tuned.
#[derive(Clone, Copy, Debug, PartialEq, Eq, Structural)]
pub struct ServerTuning {
    /// Write HTTP/1 header names in title case.
    pub title_case_headers: bool,
    /// Keep the case in which HTTP/1 header names were received.
    pub preserve_header_case: bool,
}

impl ServerTuning {
    /// The tuning of a proxy that was given none: header names in title
    /// case, and the received case preserved.
    pub open spec fn transparent() -> ServerTuning {
        ServerTuning { title_case_headers: true, preserve_header_case: true }
    }
}

/// What serves the requests of one connection: the server tuning, the
/// tunnel policy, and what the handlers are told about the client.
#[derive(Clone, Copy, Debug)]
pub struct Service {
    tuning: ServerTuning,
    policy: TunnelPolicy,
    context: HttpContext,
}

impl Service {
    /// The server tuning in force.
    pub closed spec fn tuning(&self) -> ServerTuning {
        self.tuning
    }

    /// What the proxy does with the traffic inside a tunnel.
    pub closed spec fn policy(&self) -> TunnelPolicy {
        self.policy
    }

    /// What the handlers are told about the client.
    pub closed spec fn context(&self) -> HttpContext {
        self.context
    }

    /// A service of the given settings.
    pub(crate) fn new(tuning: ServerTuning, policy: TunnelPolicy, context: HttpContext) -> (service: Service)
        ensures
            service.tuning() == tuning,
            service.policy() == policy,
            service.context() == context,
    {
        Service { tuning, policy, context }
    }

    /// The server tuning in force.
    pub fn server(&self) -> (tuning: ServerTuning)
        ensures
            tuning == self.tuning(),
    {
        self.tuning
    }

    /// What the proxy does with the traffic inside a tunnel.
    pub fn tunnel_policy(&self) -> (policy: TunnelPolicy)
        ensures
            policy == self.policy(),
    {
        self.policy
    }

    /// What the handlers are told about the client.
    pub fn http_context(&self) -> (context: HttpContext)
        ensures
            context == self.context(),
    {
        self.context
    }

    /// Begins the exchange of one request: `handler` decides on it, with
    /// this connection's context, and the decision is routed.
    pub fn call<H: HttpHandler>(&self, handler: &mut H, request: Request) -> (begun: (Exchange, ExchangeAction))
        ensures
            exists|decision: DecisionView| #[trigger] decided(decision, begun.0@, begun.1@),
    {
        Exchange::begin(handler, &self.context, request)
    }

    /// The negotiator of a tunnel on this connection, under the proxy's tunnel policy.
    pub fn tunnel(&self) -> (tunnel: Tunnel)
        ensures
            tunnel.policy() == self.policy(),
            tunnel.state() == TunnelStateView::Received,
    {
        Tunnel::new(self.policy)
    }
}

/// A proxy server, as configured. It is made by a [`ProxyBuilder`].
#[derive(Clone, Copy, Debug)]
pub struct Proxy {
    al: AddrOrListener,
    server: Option<ServerTuning>,
    policy: TunnelPolicy,
}

impl Proxy {
    /// Where the proxy listens.
    pub closed spec fn listen(&self) -> AddrOrListener {
        self.al
    }

    /// The server tuning that was configured, if any.
    pub closed spec fn tuning(&self) -> Option<ServerTuning> {
        self.server
    }

    /// What the proxy does with the traffic inside a tunnel.
    pub closed spec fn policy(&self) -> TunnelPolicy {
        self.policy
    }

    /// The server tuning in force: the configured one, or
    /// [`ServerTuning::transparent`] where none was configured.
    pub open spec fn effective_tuning(&self) -> ServerTuning {
        match self.tuning() {
            Some(tuning) => tuning,
            None => ServerTuning::transparent(),
        }
    }

    /// Where the proxy listens.
    pub fn addr_or_listener(&self) -> (al: AddrOrListener)
        ensures
            al == self.listen(),
    {
        self.al
    }

    /// The server tuning in force.
    pub fn server(&self) -> (tuning: ServerTuning)
        ensures
            tuning == self.effective_tuning(),
    {
        match self.server {
            Some(tuning) => tuning,
            None => ServerTuning { title_case_headers: true, preserve_header_case: true },
        }
    }

    /// What the proxy does with the traffic inside a tunnel.
    pub fn tunnel_policy(&self) -> (policy: TunnelPolicy)
        ensures
            policy == self.policy(),
    {
        self.policy
    }

    /// Creates a new [`ProxyBuilder`].
    pub fn builder() -> (builder: ProxyBuilder<WantsAddr>)
        ensures
            builder == ProxyBuilder(WantsAddr),
    {
        ProxyBuilder::new()
    }

    /// The service of this proxy for a caller that accepts connections
    /// itself: the tuning in force, the tunnel policy, and `127.0.0.1:80` as
    /// the client's address.
    pub fn service(self) -> (service: Service)
        ensures
            service.tuning() == self.effective_tuning(),
            service.policy() == self.policy(),
            service.context() == (HttpContext { client_addr: SocketAddress::local_http() }),
    {
        Service::new(self.server(), self.policy, HttpContext { client_addr: SocketAddress::v4(127, 0, 0, 1, 80) })
    }

    /// Starts the proxy server: gives the supervisor of its accept loop and
    /// the first thing to do. With an address, that is to bind it; with a
    /// listener bound by the caller, to begin accepting.
    pub fn start(self) -> (started: (Supervisor, Action))
        ensures
            started.0@.inv(),
            started.0@.active == 0,
            started.0.tuning() == self.effective_tuning(),
            started.0.policy() == self.policy(),
            match self.listen() {
                AddrOrListener::Addr(addr) => started.0@.phase is Binding && started.1 == Action::Bind(addr),
                AddrOrListener::Listener => started.0@.phase is Accepting && started.1 == Action::Listen,
            },
    {
        let tuning = self.server();
        match self.al {
            AddrOrListener::Addr(addr) => (Supervisor::new(false, tuning, self.policy), Action::Bind(addr)),
            AddrOrListener::Listener => (Supervisor::new(true, tuning, self.policy), Action::Listen),
        }
    }
}

/// The builder of a proxy that has not been told yet where to listen.
#[derive(Clone, Copy, Debug, PartialEq, Eq, Structural)]
pub struct WantsAddr;

/// The builder of a proxy that knows where to listen and takes the rest.
#[derive(Clone, Copy, Debug)]
pub struct WantsOptions {
    al: AddrOrListener,
    server: Option<ServerTuning>,
    policy: TunnelPolicy,
}

/// Assembles a [`Proxy`]: first where it listens, an address or a listener
/// of the caller's, one in place of the other; after that what is optional.
#[derive(Clone, Copy, Debug)]
pub struct ProxyBuilder<T>(pub T);

impl ProxyBuilder<WantsAddr> {
    /// A builder that has been told nothing yet.
    pub fn new() -> (builder: ProxyBuilder<WantsAddr>)
        ensures
            builder == ProxyBuilder(WantsAddr),
    {
        ProxyBuilder(WantsAddr)
    }

    /// The proxy binds `addr` when it starts.
    pub fn with_addr(self, addr: SocketAddress) -> (builder: ProxyBuilder<WantsOptions>)
        ensures
            builder.listen() == AddrOrListener::Addr(addr),
            builder.tuning() is None,
            builder.policy() == TunnelPolicy::Intercept,
    {
        ProxyBuilder(WantsOptions { al: AddrOrListener::Addr(addr), server: None, policy: TunnelPolicy::Intercept })
    }

    /// The proxy accepts on a listener that the caller has bound.
    pub fn with_listener(self) -> (builder: ProxyBuilder<WantsOptions>)
        ensures
            builder.listen() == AddrOrListener::Listener,
            builder.tuning() is None,
            builder.policy() == TunnelPolicy::Intercept,
    {
        ProxyBuilder(WantsOptions { al: AddrOrListener::Listener, server: None, policy: TunnelPolicy::Intercept })
    }
}

impl ProxyBuilder<WantsOptions> {
    /// Where the proxy will listen.
    pub closed spec fn listen(&self) -> AddrOrListener {
        self.0.al
    }

    /// The server tuning given so far, if any.
    pub closed spec fn tuning(&self) -> Option<ServerTuning> {
        self.0.server
    }

    /// The tunnel policy given so far.
    pub closed spec fn policy(&self) -> TunnelPolicy {
        self.0.policy
    }

    /// The HTTP server side of each connection is tuned as `tuning` says.
    pub fn with_server(self, tuning: ServerTuning) -> (builder: ProxyBuilder<WantsOptions>)
        ensures
            builder.listen() == self.listen(),
            builder.tuning() == Some(tuning),
            builder.policy() == self.policy(),
    {
        ProxyBuilder(WantsOptions { al: self.0.al, server: Some(tuning), policy: self.0.policy })
    }

    /// The traffic inside tunnels is treated as `policy` says.
    pub fn with_tunnel_policy(self, policy: TunnelPolicy) -> (builder: ProxyBuilder<WantsOptions>)
        ensures
            builder.listen() == self.listen(),
            builder.tuning() == self.tuning(),
            builder.policy() == policy,
    {
        ProxyBuilder(WantsOptions { al: self.0.al, server: self.0.server, policy })
    }

    /// The proxy as configured.
    pub fn build(self) -> (proxy: Proxy)
        ensures
            proxy.listen() == self.listen(),
            proxy.tuning() == self.tuning(),
            proxy.policy() == self.policy(),
    {
        Proxy { al: self.0.al, server: self.0.server, policy: self.0.policy }
    }
}

} // verus!
