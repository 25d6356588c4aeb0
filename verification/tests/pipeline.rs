use hudsucker::address::SocketAddress;
use hudsucker::handler::{HttpContext, HttpHandler, Passthrough, RequestOrResponse};
use hudsucker::message::{Header, Request, Response, Version};
use hudsucker::pipeline::{Exchange, ExchangeAction, ExchangeEvent, Stage, UpstreamError};
use hudsucker::proxy::Proxy;

fn header(name: &[u8], value: &[u8]) -> Header {
    Header { name: name.to_vec(), value: value.to_vec() }
}

fn get(target: &[u8], headers: Vec<Header>) -> Request {
    Request {
        method: b"GET".to_vec(),
        target: target.to_vec(),
        version: Version::Http11,
        headers,
        body: Vec::new(),
    }
}

fn ok(body: &[u8]) -> Response {
    Response {
        status: 200,
        version: Version::Http11,
        headers: vec![header(b"Content-Type", b"text/plain")],
        body: body.to_vec(),
    }
}

fn ctx() -> HttpContext {
    HttpContext { client_addr: SocketAddress::v4(10, 1, 2, 3, 5555) }
}

/// Answers `403` to every request whose path starts with `/blocked`, and
/// counts what it was shown.
struct Blocker {
    seen: usize,
    clients: Vec<SocketAddress>,
}

impl HttpHandler for Blocker {
    fn on_request(&mut self, ctx: &HttpContext, request: Request) -> RequestOrResponse {
        self.seen += 1;
        self.clients.push(ctx.client_addr);
        if request.target.starts_with(b"/blocked") {
            RequestOrResponse::Response(Response::empty(403))
        } else {
            RequestOrResponse::Request(request)
        }
    }

    fn on_response(&mut self, _ctx: &HttpContext, mut response: Response) -> Response {
        response.headers.push(header(b"X-Seen", b"1"));
        response
    }
}

/// Stands for the outbound transport: records each request that reaches it.
struct Origin {
    calls: Vec<Request>,
    reachable: bool,
}

impl Origin {
    fn send(&mut self, request: Request) -> Result<Response, UpstreamError> {
        self.calls.push(request);
        if self.reachable {
            Ok(ok(b"hello"))
        } else {
            Err(UpstreamError::Unreachable)
        }
    }
}

fn exchange<H: HttpHandler>(handler: &mut H, origin: &mut Origin, request: Request) -> Option<Response> {
    let (mut exchange, action) = Exchange::begin(handler, &ctx(), request);
    match action {
        ExchangeAction::Respond(response) => Some(response),
        ExchangeAction::Forward(request) => {
            let outcome = origin.send(request);
            exchange.conclude(handler, &ctx(), outcome)
        },
        _ => None,
    }
}

#[test]
fn pass_through_forwards_and_returns_verbatim() {
    let request = get(b"http://example.com/", vec![header(b"Host", b"example.com")]);
    let mut origin = Origin { calls: Vec::new(), reachable: true };
    let answer = exchange(&mut Passthrough, &mut origin, request.clone());
    assert_eq!(origin.calls, vec![request]);
    assert_eq!(answer, Some(ok(b"hello")));
}

#[test]
fn header_case_and_order_are_preserved() {
    let headers = vec![
        header(b"X-UPPER", b"A"),
        header(b"x-lower", b"b"),
        header(b"X-MiXeD-CaSe", b"C, d"),
        header(b"x-lower", b"again"),
        header(b"Host", b"Example.COM"),
    ];
    let request = get(b"http://example.com/path?q=1", headers.clone());
    let (exchange, action) = Exchange::begin(&mut Passthrough, &ctx(), request.clone());
    assert_eq!(exchange.stage(), Stage::Forwarding);
    match action {
        ExchangeAction::Forward(forwarded) => {
            assert_eq!(forwarded.headers, headers);
            assert_eq!(forwarded, request);
        },
        other => panic!("not forwarded: {:?}", other),
    }
}

#[test]
fn blocked_path_never_reaches_the_origin() {
    let mut handler = Blocker { seen: 0, clients: Vec::new() };
    let mut origin = Origin { calls: Vec::new(), reachable: true };
    for target in [&b"/blocked"[..], b"/blocked/deeper", b"/blocked?x=1"] {
        let answer = exchange(&mut handler, &mut origin, get(target, Vec::new()));
        assert_eq!(answer, Some(Response::empty(403)));
    }
    assert_eq!(origin.calls.len(), 0);
    assert_eq!(handler.seen, 3);

    let answer = exchange(&mut handler, &mut origin, get(b"/open", Vec::new()));
    assert_eq!(origin.calls.len(), 1);
    let mut expected = ok(b"hello");
    expected.headers.push(header(b"X-Seen", b"1"));
    assert_eq!(answer, Some(expected));
}

#[test]
fn short_circuit_ends_the_exchange() {
    let mut exchange = Exchange::new();
    let action = exchange.step(ExchangeEvent::Decided(RequestOrResponse::Response(Response::empty(403))));
    assert_eq!(action, ExchangeAction::Respond(Response::empty(403)));
    assert_eq!(exchange.stage(), Stage::Done);
    // nothing that follows can bring the transport in
    assert_eq!(exchange.step(ExchangeEvent::Replied(ok(b"late"))), ExchangeAction::Ignore);
    assert_eq!(
        exchange.step(ExchangeEvent::Decided(RequestOrResponse::Request(get(b"/", Vec::new())))),
        ExchangeAction::Ignore
    );
    assert_eq!(exchange.stage(), Stage::Done);
}

#[test]
fn unreachable_origin_is_answered_with_502() {
    let mut handler = Blocker { seen: 0, clients: Vec::new() };
    let mut origin = Origin { calls: Vec::new(), reachable: false };
    let answer = exchange(&mut handler, &mut origin, get(b"/open", Vec::new()));
    // the handler's response phase does not see the synthetic answer
    assert_eq!(answer, Some(Response::bad_gateway()));
    assert_eq!(answer.map(|r| r.status), Some(502));
    assert_eq!(origin.calls.len(), 1);

    // the next, unrelated exchange is served as usual
    origin.reachable = true;
    let answer = exchange(&mut Passthrough, &mut origin, get(b"/other", Vec::new()));
    assert_eq!(answer, Some(ok(b"hello")));
}

#[test]
fn every_transport_failure_is_a_502() {
    for e in [
        UpstreamError::Unreachable,
        UpstreamError::TimedOut,
        UpstreamError::Tls,
        UpstreamError::Malformed,
    ] {
        let (mut exchange, _) = Exchange::begin(&mut Passthrough, &ctx(), get(b"/", Vec::new()));
        assert_eq!(
            exchange.step(ExchangeEvent::Failed(e)),
            ExchangeAction::Respond(Response::bad_gateway())
        );
        assert_eq!(exchange.stage(), Stage::Done);
    }
}

#[test]
fn stages_follow_one_another() {
    let mut exchange = Exchange::new();
    assert_eq!(exchange.stage(), Stage::Deciding);
    let request = get(b"/", Vec::new());
    assert_eq!(
        exchange.step(ExchangeEvent::Decided(RequestOrResponse::Request(request.clone()))),
        ExchangeAction::Forward(request)
    );
    assert_eq!(exchange.stage(), Stage::Forwarding);
    assert_eq!(exchange.step(ExchangeEvent::Rewritten(ok(b"x"))), ExchangeAction::Ignore);
    assert_eq!(exchange.stage(), Stage::Forwarding);
    assert_eq!(exchange.step(ExchangeEvent::Replied(ok(b"x"))), ExchangeAction::Rewrite(ok(b"x")));
    assert_eq!(exchange.stage(), Stage::Rewriting);
    assert_eq!(exchange.step(ExchangeEvent::Failed(UpstreamError::TimedOut)), ExchangeAction::Ignore);
    assert_eq!(exchange.step(ExchangeEvent::Rewritten(ok(b"y"))), ExchangeAction::Respond(ok(b"y")));
    assert_eq!(exchange.stage(), Stage::Done);
}

#[test]
fn connect_goes_to_the_tunnel_negotiator() {
    let mut request = get(b"example.com:443", Vec::new());
    request.method = b"CONNECT".to_vec();
    let (exchange, action) = Exchange::begin(&mut Passthrough, &ctx(), request.clone());
    assert_eq!(action, ExchangeAction::Tunnel(request));
    assert_eq!(exchange.stage(), Stage::Done);
}

#[test]
fn upgrade_goes_to_the_bridge() {
    let request = get(
        b"/chat",
        vec![header(b"Connection", b"Upgrade"), header(b"Upgrade", b"websocket")],
    );
    let (exchange, action) = Exchange::begin(&mut Passthrough, &ctx(), request.clone());
    assert_eq!(action, ExchangeAction::Upgrade(request));
    assert_eq!(exchange.stage(), Stage::Done);
}

#[test]
fn handler_may_answer_a_connect() {
    let mut handler = Blocker { seen: 0, clients: Vec::new() };
    let mut request = get(b"/blocked", Vec::new());
    request.method = b"CONNECT".to_vec();
    let (_, action) = Exchange::begin(&mut handler, &ctx(), request);
    assert_eq!(action, ExchangeAction::Respond(Response::empty(403)));
}

#[test]
fn conclude_needs_a_forwarded_request() {
    let mut exchange = Exchange::new();
    assert_eq!(exchange.conclude(&mut Passthrough, &ctx(), Ok(ok(b"x"))), None);
    assert_eq!(exchange.stage(), Stage::Deciding);
    let (mut done, _) = Exchange::begin(
        &mut Blocker { seen: 0, clients: Vec::new() },
        &ctx(),
        get(b"/blocked", Vec::new()),
    );
    assert_eq!(done.conclude(&mut Passthrough, &ctx(), Err(UpstreamError::Tls)), None);
    assert_eq!(done.stage(), Stage::Done);
}

#[test]
fn service_tells_handlers_the_client() {
    let service = Proxy::builder().with_listener().build().service();
    let mut handler = Blocker { seen: 0, clients: Vec::new() };
    let (_, action) = service.call(&mut handler, get(b"/", Vec::new()));
    assert_eq!(action, ExchangeAction::Forward(get(b"/", Vec::new())));
    assert_eq!(handler.clients, vec![SocketAddress::v4(127, 0, 0, 1, 80)]);
}
