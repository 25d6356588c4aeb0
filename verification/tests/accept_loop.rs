use hudsucker::address::{IpAddress, SocketAddress};
use hudsucker::error::{Error, Scope};
use hudsucker::handler::HttpContext;
use hudsucker::proxy::{AddrOrListener, Proxy, ProxyBuilder, ServerTuning};
use hudsucker::supervisor::{Action, Event, Phase};
use hudsucker::tunnel::TunnelPolicy;

fn listen_addr() -> SocketAddress {
    SocketAddress::v4(127, 0, 0, 1, 0)
}

fn client(n: u8) -> SocketAddress {
    SocketAddress::v4(192, 168, 0, n, 40000)
}

#[test]
fn v4_address_spells_its_octets() {
    let addr = SocketAddress::v4(127, 0, 0, 1, 80);
    assert_eq!(addr.port, 80);
    assert_eq!(addr.ip, IpAddress::V4(0x7f00_0001));
    let other = SocketAddress::v4(255, 254, 253, 252, 65535);
    assert_eq!(other.ip, IpAddress::V4(0xfffe_fdfc));
    assert_eq!(other.port, 65535);
    assert_eq!(SocketAddress::v4(0, 0, 0, 0, 0).ip, IpAddress::V4(0));
}

#[test]
fn only_bind_errors_are_fatal() {
    assert!(Error::Bind.is_fatal());
    for e in [
        Error::Accept,
        Error::Cert,
        Error::Handshake,
        Error::Upstream,
        Error::Protocol,
        Error::Connection,
    ] {
        assert!(!e.is_fatal());
    }
}

#[test]
fn each_error_has_its_scope() {
    assert_eq!(Error::Bind.scope(), Scope::Proxy);
    assert_eq!(Error::Accept.scope(), Scope::AcceptAttempt);
    assert_eq!(Error::Cert.scope(), Scope::Tunnel);
    assert_eq!(Error::Handshake.scope(), Scope::Tunnel);
    assert_eq!(Error::Upstream.scope(), Scope::Exchange);
    assert_eq!(Error::Protocol.scope(), Scope::Exchange);
    assert_eq!(Error::Connection.scope(), Scope::Connection);
}

#[test]
fn builder_keeps_what_it_was_given() {
    let proxy = Proxy::builder().with_addr(listen_addr()).build();
    assert_eq!(proxy.addr_or_listener(), AddrOrListener::Addr(listen_addr()));
    assert_eq!(proxy.tunnel_policy(), TunnelPolicy::Intercept);
    assert_eq!(
        proxy.server(),
        ServerTuning { title_case_headers: true, preserve_header_case: true }
    );

    let tuning = ServerTuning { title_case_headers: false, preserve_header_case: true };
    let proxy = ProxyBuilder::new()
        .with_listener()
        .with_server(tuning)
        .with_tunnel_policy(TunnelPolicy::Relay)
        .build();
    assert_eq!(proxy.addr_or_listener(), AddrOrListener::Listener);
    assert_eq!(proxy.server(), tuning);
    assert_eq!(proxy.tunnel_policy(), TunnelPolicy::Relay);
}

#[test]
fn service_defaults_to_transparent_tuning_and_local_client() {
    let service = Proxy::builder().with_addr(listen_addr()).build().service();
    assert_eq!(
        service.server(),
        ServerTuning { title_case_headers: true, preserve_header_case: true }
    );
    assert_eq!(
        service.http_context(),
        HttpContext { client_addr: SocketAddress { ip: IpAddress::V4(0x7f00_0001), port: 80 } }
    );
    assert_eq!(service.tunnel_policy(), TunnelPolicy::Intercept);
}

#[test]
fn service_keeps_configured_tuning() {
    let tuning = ServerTuning { title_case_headers: false, preserve_header_case: false };
    let service = Proxy::builder().with_listener().with_server(tuning).build().service();
    assert_eq!(service.server(), tuning);
}

#[test]
fn start_with_address_binds_first() {
    let (mut supervisor, first) = Proxy::builder().with_addr(listen_addr()).build().start();
    assert_eq!(first, Action::Bind(listen_addr()));
    assert_eq!(supervisor.phase(), Phase::Binding);
    assert_eq!(supervisor.active(), 0);
    assert_eq!(supervisor.step(Event::Accepted(client(1))), Action::Idle);
    assert_eq!(supervisor.step(Event::Bound), Action::Listen);
    assert_eq!(supervisor.phase(), Phase::Accepting);
}

#[test]
fn start_with_listener_accepts_at_once() {
    let (supervisor, first) = Proxy::builder().with_listener().build().start();
    assert_eq!(first, Action::Listen);
    assert_eq!(supervisor.phase(), Phase::Accepting);
    assert!(!supervisor.is_finished());
}

#[test]
fn bind_failure_is_fatal_and_final() {
    let (mut supervisor, _) = Proxy::builder().with_addr(listen_addr()).build().start();
    assert_eq!(supervisor.step(Event::BindFailed), Action::Fail(Error::Bind));
    assert_eq!(supervisor.phase(), Phase::Failed);
    assert!(supervisor.is_finished());
    assert_eq!(supervisor.step(Event::Bound), Action::Idle);
    assert_eq!(supervisor.step(Event::Accepted(client(1))), Action::Idle);
    assert_eq!(supervisor.phase(), Phase::Failed);
    assert_eq!(supervisor.active(), 0);
}

#[test]
fn accept_failure_is_reported_and_the_loop_goes_on() {
    let (mut supervisor, _) = Proxy::builder().with_listener().build().start();
    assert_eq!(supervisor.step(Event::Accepted(client(1))), Action::Spawn(client(1)));
    assert_eq!(supervisor.step(Event::AcceptFailed), Action::Report(Error::Accept));
    assert_eq!(supervisor.phase(), Phase::Accepting);
    assert_eq!(supervisor.active(), 1);
    assert_eq!(supervisor.step(Event::Accepted(client(2))), Action::Spawn(client(2)));
    assert_eq!(supervisor.active(), 2);
}

#[test]
fn tasks_that_exit_are_counted_out() {
    let (mut supervisor, _) = Proxy::builder().with_listener().build().start();
    assert_eq!(supervisor.step(Event::TaskExited), Action::Idle);
    assert_eq!(supervisor.active(), 0);
    supervisor.step(Event::Accepted(client(1)));
    supervisor.step(Event::Accepted(client(2)));
    assert_eq!(supervisor.step(Event::TaskExited), Action::Idle);
    assert_eq!(supervisor.active(), 1);
    assert_eq!(supervisor.phase(), Phase::Accepting);
}

#[test]
fn shutdown_with_nothing_live_finishes_at_once() {
    let (mut supervisor, _) = Proxy::builder().with_listener().build().start();
    assert_eq!(supervisor.step(Event::Shutdown), Action::Finish);
    assert_eq!(supervisor.phase(), Phase::Stopped);
    assert!(supervisor.is_finished());
}

#[test]
fn shutdown_while_binding_finishes() {
    let (mut supervisor, _) = Proxy::builder().with_addr(listen_addr()).build().start();
    assert_eq!(supervisor.step(Event::Shutdown), Action::Finish);
    assert_eq!(supervisor.step(Event::Bound), Action::Idle);
    assert_eq!(supervisor.phase(), Phase::Stopped);
}

#[test]
fn shutdown_waits_for_every_live_connection() {
    let (mut supervisor, _) = Proxy::builder().with_listener().build().start();
    for n in 1..=3 {
        assert_eq!(supervisor.step(Event::Accepted(client(n))), Action::Spawn(client(n)));
    }
    assert_eq!(supervisor.active(), 3);
    assert_eq!(supervisor.step(Event::Shutdown), Action::Drain);
    assert_eq!(supervisor.phase(), Phase::Draining);

    // nothing is admitted after the signal
    assert_eq!(supervisor.step(Event::Accepted(client(9))), Action::Refuse(client(9)));
    assert_eq!(supervisor.active(), 3);
    assert_eq!(supervisor.step(Event::AcceptFailed), Action::Idle);
    assert_eq!(supervisor.step(Event::Shutdown), Action::Idle);

    assert_eq!(supervisor.step(Event::TaskExited), Action::Idle);
    assert!(!supervisor.is_finished());
    assert_eq!(supervisor.step(Event::TaskExited), Action::Idle);
    assert!(!supervisor.is_finished());
    assert_eq!(supervisor.active(), 1);
    assert_eq!(supervisor.step(Event::TaskExited), Action::Finish);
    assert!(supervisor.is_finished());
    assert_eq!(supervisor.phase(), Phase::Stopped);
    assert_eq!(supervisor.active(), 0);

    assert_eq!(supervisor.step(Event::Accepted(client(9))), Action::Idle);
    assert_eq!(supervisor.step(Event::TaskExited), Action::Idle);
    assert_eq!(supervisor.phase(), Phase::Stopped);
}

#[test]
fn each_connection_gets_the_proxy_settings_and_its_client() {
    let tuning = ServerTuning { title_case_headers: true, preserve_header_case: false };
    let (supervisor, _) = Proxy::builder()
        .with_listener()
        .with_server(tuning)
        .with_tunnel_policy(TunnelPolicy::Relay)
        .build()
        .start();
    let service = supervisor.connection(client(7));
    assert_eq!(service.server(), tuning);
    assert_eq!(service.tunnel_policy(), TunnelPolicy::Relay);
    assert_eq!(service.http_context(), HttpContext { client_addr: client(7) });
    assert_eq!(service.tunnel().tunnel_policy(), TunnelPolicy::Relay);
}
