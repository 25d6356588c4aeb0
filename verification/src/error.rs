//! The failures a proxy can meet, and how far each one reaches.

use vstd::prelude::*;

verus! {

/// What a failure brings to an end.
#[derive(Clone, Copy, Debug, PartialEq, Eq, Structural)]
pub enum Scope {
    /// The whole proxy: it never starts serving.
    Proxy,
    /// One attempt to accept a connection; the accept loop goes on.
    AcceptAttempt,
    /// One tunnel; the proxy and its other connections go on.
    Tunnel,
    /// One request/response exchange, or one frame; the connection stays usable.
    Exchange,
    /// One connection; no other connection is affected.
    Connection,
}

/// The kinds of failure.
#[derive(Clone, Copy, Debug, PartialEq, Eq, Structural)]
pub enum Error {
    /// The listening address is unavailable.
    Bind,
    /// A single accept attempt failed.
    Accept,
    /// A certificate could not be issued for a hostname.
    Cert,
    /// TLS negotiation failed on a tunnel or on an outbound connection.
    Handshake,
    /// The origin is unreachable or answered with something malformed.
    Upstream,
    /// A malformed client request or frame.
    Protocol,
    /// Serving a connection failed at the transport layer.
    Connection,
}

impl Error {
    /// What this kind of failure brings to an end.
    pub open spec fn spec_scope(self) -> Scope {
        match self {
            Error::Bind => Scope::Proxy,
            Error::Accept => Scope::AcceptAttempt,
            Error::Cert => Scope::Tunnel,
            Error::Handshake => Scope::Tunnel,
            Error::Upstream => Scope::Exchange,
            Error::Protocol => Scope::Exchange,
            Error::Connection => Scope::Connection,
        }
    }

    /// What this kind of failure brings to an end.
    #[verifier::when_used_as_spec(spec_scope)]
    pub fn scope(self) -> (s: Scope)
        ensures
            s == self.spec_scope(),
    {
        match self {
            Error::Bind => Scope::Proxy,
            Error::Accept => Scope::AcceptAttempt,
            Error::Cert => Scope::Tunnel,
            Error::Handshake => Scope::Tunnel,
            Error::Upstream => Scope::Exchange,
            Error::Protocol => Scope::Exchange,
            Error::Connection => Scope::Connection,
        }
    }

    /// Whether this kind of failure stops the whole proxy.
    pub open spec fn spec_is_fatal(self) -> bool {
        self == Error::Bind
    }

    /// Whether this kind of failure stops the whole proxy. Only a failure to
    /// bind the listening address does.
    #[verifier::when_used_as_spec(spec_is_fatal)]
    pub fn is_fatal(self) -> (fatal: bool)
        ensures
            fatal == (self == Error::Bind),
            fatal == (self.spec_scope() == Scope::Proxy),
    {
        match self {
            Error::Bind => true,
            _ => false,
        }
    }
}

} // verus!
