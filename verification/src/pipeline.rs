//! The request pipeline: what becomes of one request.
//!
//! An exchange passes through the request phase of the handler, the outbound
//! transport, and the response phase of the handler. The library contacts no
//! origin: [`Exchange::step`] says what to do next, and the caller forwards
//! the request and hands back what the origin answered.

use crate::handler::{DecisionView, HttpContext, HttpHandler, RequestOrResponse};
use crate::message::{Request, RequestView, Response, ResponseView};
use vstd::prelude::*;

verus! {

/// Why the outbound transport gave no response.
#[derive(Clone, Copy, Debug, PartialEq, Eq, Structural)]
pub enum UpstreamError {
    /// The origin refused the connection or cannot be reached.
    Unreachable,
    /// The origin did not answer in time.
    TimedOut,
    /// TLS negotiation with the origin failed.
    Tls,
    /// The origin answered with something malformed.
    Malformed,
}

/// How far an exchange has come.
#[derive(Clone, Copy, Debug, PartialEq, Eq, Structural)]
pub enum Stage {
    /// The request is with the request phase of the handler.
    Deciding,
    /// The request is with the outbound transport.
    Forwarding,
    /// The response is with the response phase of the handler.
    Rewriting,
    /// The exchange is over: answered, or handed to a tunnel or a WebSocket bridge.
    Done,
}

/// What happened outside since the last step of an exchange.
#[derive(Clone, Debug, PartialEq, Eq)]
pub enum ExchangeEvent {
    /// The request phase of the handler returned.
    Decided(RequestOrResponse),
    /// The origin answered.
    Replied(Response),
    /// The outbound transport failed.
    Failed(UpstreamError),
    /// The response phase of the handler returned.
    Rewritten(Response),
}

/// What an event of an exchange holds.
pub enum ExchangeEventView {
    Decided(DecisionView),
    Replied(ResponseView),
    Failed(UpstreamError),
    Rewritten(ResponseView),
}

impl View for ExchangeEvent {
    type V = ExchangeEventView;

    open spec fn view(&self) -> ExchangeEventView {
        match self {
            ExchangeEvent::Decided(decision) => ExchangeEventView::Decided(decision@),
            ExchangeEvent::Replied(response) => ExchangeEventView::Replied(response@),
            ExchangeEvent::Failed(e) => ExchangeEventView::Failed(*e),
            ExchangeEvent::Rewritten(response) => ExchangeEventView::Rewritten(response@),
        }
    }
}

/// What the caller does next in an exchange.
#[derive(Clone, Debug, PartialEq, Eq)]
pub enum ExchangeAction {
    /// Send the request to its origin through the outbound transport, and
    /// report `Replied` or `Failed`.
    Forward(Request),
    /// Hand the response to the response phase of the handler, and report `Rewritten`.
    Rewrite(Response),
    /// Send the response to the client.
    Respond(Response),
    /// Hand the `CONNECT` request to the tunnel negotiator.
    Tunnel(Request),
    /// Hand the upgrade request to the WebSocket bridge.
    Upgrade(Request),
    /// Nothing: the event does not belong to this stage of the exchange.
    Ignore,
}

/// What an action of an exchange holds.
pub enum ExchangeActionView {
    Forward(RequestView),
    Rewrite(ResponseView),
    Respond(ResponseView),
    Tunnel(RequestView),
    Upgrade(RequestView),
    Ignore,
}

impl View for ExchangeAction {
    type V = ExchangeActionView;

    open spec fn view(&self) -> ExchangeActionView {
        match self {
            ExchangeAction::Forward(request) => ExchangeActionView::Forward(request@),
            ExchangeAction::Rewrite(response) => ExchangeActionView::Rewrite(response@),
            ExchangeAction::Respond(response) => ExchangeActionView::Respond(response@),
            ExchangeAction::Tunnel(request) => ExchangeActionView::Tunnel(request@),
            ExchangeAction::Upgrade(request) => ExchangeActionView::Upgrade(request@),
            ExchangeAction::Ignore => ExchangeActionView::Ignore,
        }
    }
}

/// Where a request goes once the request phase has let it pass: to the
/// tunnel negotiator if it is a `CONNECT`, else to the WebSocket bridge if it
/// asks for that upgrade, else to its origin, unchanged.
pub open spec fn route(request: RequestView) -> (Stage, ExchangeActionView) {
    if request.is_connect() {
        (Stage::Done, ExchangeActionView::Tunnel(request))
    } else if request.is_upgrade() {
        (Stage::Done, ExchangeActionView::Upgrade(request))
    } else {
        (Stage::Forwarding, ExchangeActionView::Forward(request))
    }
}

/// The transition of an exchange: the stage after `event`, and what the caller does.
pub open spec fn next(stage: Stage, event: ExchangeEventView) -> (Stage, ExchangeActionView) {
    match (stage, event) {
        (Stage::Deciding, ExchangeEventView::Decided(DecisionView::Response(response))) => (
            Stage::Done,
            ExchangeActionView::Respond(response),
        ),
        (Stage::Deciding, ExchangeEventView::Decided(DecisionView::Request(request))) => route(request),
        (Stage::Forwarding, ExchangeEventView::Replied(response)) => (
            Stage::Rewriting,
            ExchangeActionView::Rewrite(response),
        ),
        (Stage::Forwarding, ExchangeEventView::Failed(_)) => (
            Stage::Done,
            ExchangeActionView::Respond(ResponseView::bad_gateway()),
        ),
        (Stage::Rewriting, ExchangeEventView::Rewritten(response)) => (
            Stage::Done,
            ExchangeActionView::Respond(response),
        ),
        _ => (stage, ExchangeActionView::Ignore),
    }
}

/// The stage after a sequence of events, taken in order.
pub open spec fn run(stage: Stage, events: Seq<ExchangeEventView>) -> Stage
    decreases events.len(),
{
    if events.len() == 0 {
        stage
    } else {
        next(run(stage, events.drop_last()), events.last()).0
    }
}

/// The action that the `i`-th event of a sequence brings.
pub open spec fn action_at(stage: Stage, events: Seq<ExchangeEventView>, i: int) -> ExchangeActionView {
    next(run(stage, events.take(i)), events[i]).1
}

/// How far a stage is from the start of an exchange.
pub open spec fn rank(stage: Stage) -> int {
    match stage {
        Stage::Deciding => 0,
        Stage::Forwarding => 1,
        Stage::Rewriting => 2,
        Stage::Done => 3,
    }
}

/// An exchange never goes back: no sequence of events lowers the rank of its stage.
pub proof fn lemma_run_advances(stage: Stage, events: Seq<ExchangeEventView>)
    ensures
        rank(stage) <= rank(run(stage, events)),
    decreases events.len(),
{
    if events.len() > 0 {
        lemma_run_advances(stage, events.drop_last());
    }
}

/// Running a sequence of events is running its first `i` and going on from there.
pub proof fn lemma_run_take(stage: Stage, events: Seq<ExchangeEventView>, i: int, j: int)
    requires
        0 <= i <= j <= events.len(),
    ensures
        run(stage, events.take(j)) == run(run(stage, events.take(i)), events.subrange(i, j)),
    decreases j - i,
{
    if i == j {
        assert(events.subrange(i, j) =~= Seq::<ExchangeEventView>::empty());
    } else {
        lemma_run_take(stage, events, i, j - 1);
        assert(events.take(j).drop_last() =~= events.take(j - 1));
        assert(events.subrange(i, j).drop_last() =~= events.subrange(i, j - 1));
        assert(events.take(j).last() == events.subrange(i, j).last());
    }
}

/// The short circuit: where the request phase answers with a response, that
/// response goes to the client and the outbound transport is never asked,
/// whatever else happens in the exchange.
pub proof fn law_short_circuit(response: ResponseView, events: Seq<ExchangeEventView>, i: int)
    requires
        0 <= i < events.len(),
        events[0] == ExchangeEventView::Decided(DecisionView::Response(response)),
    ensures
        action_at(Stage::Deciding, events, 0) == ExchangeActionView::Respond(response),
        !(action_at(Stage::Deciding, events, i) is Forward),
{
    assert(events.take(0) =~= Seq::<ExchangeEventView>::empty());
    if i > 0 {
        assert(events.take(1).drop_last() =~= Seq::<ExchangeEventView>::empty());
        assert(events.take(1).last() == events[0]);
        assert(run(Stage::Deciding, events.take(1)) == Stage::Done);
        lemma_run_take(Stage::Deciding, events, 1, i);
        lemma_run_advances(Stage::Done, events.subrange(1, i));
    }
}

/// The outbound transport is asked at most once in an exchange, and only for
/// the request that the request phase let pass.
pub proof fn law_forward_once(events: Seq<ExchangeEventView>, i: int, j: int)
    requires
        0 <= i < j < events.len(),
        action_at(Stage::Deciding, events, i) is Forward,
    ensures
        !(action_at(Stage::Deciding, events, j) is Forward),
        events[i] == ExchangeEventView::Decided(
            DecisionView::Request(action_at(Stage::Deciding, events, i)->Forward_0),
        ),
{
    let before = run(Stage::Deciding, events.take(i));
    assert(before is Deciding);
    assert(events.take(i + 1).drop_last() =~= events.take(i));
    assert(events.take(i + 1).last() == events[i]);
    assert(run(Stage::Deciding, events.take(i + 1)) is Forwarding);
    lemma_run_take(Stage::Deciding, events, i + 1, j);
    lemma_run_advances(Stage::Forwarding, events.subrange(i + 1, j));
}

/// Transparency: a request that the request phase returns as it came, and
/// that is neither a `CONNECT` nor an upgrade, is forwarded as it came, with
/// every header field in its place and in its case; and a response that the
/// response phase returns as it came is sent to the client as it came.
pub proof fn law_transparent(request: RequestView, response: ResponseView)
    requires
        !request.is_connect(),
        !request.is_upgrade(),
    ensures
        ({
            let events = seq![
                ExchangeEventView::Decided(DecisionView::Request(request)),
                ExchangeEventView::Replied(response),
                ExchangeEventView::Rewritten(response),
            ];
            &&& action_at(Stage::Deciding, events, 0) == ExchangeActionView::Forward(request)
            &&& action_at(Stage::Deciding, events, 1) == ExchangeActionView::Rewrite(response)
            &&& action_at(Stage::Deciding, events, 2) == ExchangeActionView::Respond(response)
            &&& run(Stage::Deciding, events) == Stage::Done
        }),
{
    let events = seq![
        ExchangeEventView::Decided(DecisionView::Request(request)),
        ExchangeEventView::Replied(response),
        ExchangeEventView::Rewritten(response),
    ];
    assert(events.take(0) =~= Seq::<ExchangeEventView>::empty());
    assert(events.take(1).drop_last() =~= events.take(0));
    assert(events.take(1).last() == events[0]);
    assert(events.take(2).drop_last() =~= events.take(1));
    assert(events.take(2).last() == events[1]);
    assert(events.drop_last() =~= events.take(2));
    assert(run(Stage::Deciding, events.take(1)) == Stage::Forwarding);
    assert(run(Stage::Deciding, events.take(2)) == Stage::Rewriting);
}

/// A failure of the outbound transport ends the exchange with a `502`,
/// whatever the failure; it reaches nothing else.
pub proof fn law_upstream_failure_is_bad_gateway(e: UpstreamError)
    ensures
        next(Stage::Forwarding, ExchangeEventView::Failed(e)) == (
            Stage::Done,
            ExchangeActionView::Respond(ResponseView::bad_gateway()),
        ),
        ResponseView::bad_gateway().status == 502,
        ResponseView::bad_gateway().is_server_error(),
{
}

/// One request/response exchange.
#[derive(Debug)]
pub struct Exchange {
    stage: Stage,
}

impl View for Exchange {
    type V = Stage;

    closed spec fn view(&self) -> Stage {
        self.stage
    }
}

/// Whether `(stage, action)` is what an exchange comes to once the request
/// phase has returned `decision`.
pub open spec fn decided(decision: DecisionView, stage: Stage, action: ExchangeActionView) -> bool {
    (stage, action) == next(Stage::Deciding, ExchangeEventView::Decided(decision))
}

impl Exchange {
    /// An exchange whose request is with the request phase of the handler.
    pub fn new() -> (exchange: Exchange)
        ensures
            exchange@ == Stage::Deciding,
    {
        Exchange { stage: Stage::Deciding }
    }

    /// How far the exchange has come.
    pub fn stage(&self) -> (stage: Stage)
        ensures
            stage == self@,
    {
        self.stage
    }

    /// Takes one event and says what the caller does next.
    pub fn step(&mut self, event: ExchangeEvent) -> (action: ExchangeAction)
        ensures
            (final(self)@, action@) == next(old(self)@, event@),
    {
        match self.stage {
            Stage::Deciding => match event {
                ExchangeEvent::Decided(RequestOrResponse::Response(response)) => {
                    self.stage = Stage::Done;
                    ExchangeAction::Respond(response)
                },
                ExchangeEvent::Decided(RequestOrResponse::Request(request)) => {
                    if request.is_connect() {
                        self.stage = Stage::Done;
                        ExchangeAction::Tunnel(request)
                    } else if request.is_upgrade() {
                        self.stage = Stage::Done;
                        ExchangeAction::Upgrade(request)
                    } else {
                        self.stage = Stage::Forwarding;
                        ExchangeAction::Forward(request)
                    }
                },
                _ => ExchangeAction::Ignore,
            },
            Stage::Forwarding => match event {
                ExchangeEvent::Replied(response) => {
                    self.stage = Stage::Rewriting;
                    ExchangeAction::Rewrite(response)
                },
                ExchangeEvent::Failed(_) => {
                    self.stage = Stage::Done;
                    ExchangeAction::Respond(Response::bad_gateway())
                },
                _ => ExchangeAction::Ignore,
            },
            Stage::Rewriting => match event {
                ExchangeEvent::Rewritten(response) => {
                    self.stage = Stage::Done;
                    ExchangeAction::Respond(response)
                },
                _ => ExchangeAction::Ignore,
            },
            Stage::Done => ExchangeAction::Ignore,
        }
    }

    /// Begins an exchange: hands `request` to the request phase of `handler`
    /// and takes the step that its decision brings. Whatever the handler
    /// decides, the result is what [`next`] makes of that decision.
    pub fn begin<H: HttpHandler>(handler: &mut H, ctx: &HttpContext, request: Request) -> (begun: (
        Exchange,
        ExchangeAction,
    ))
        ensures
            exists|decision: DecisionView| #[trigger] decided(decision, begun.0@, begun.1@),
    {
        let decision = handler.on_request(ctx, request);
        let ghost held = decision@;
        let mut exchange = Exchange::new();
        let action = exchange.step(ExchangeEvent::Decided(decision));
        let begun = (exchange, action);
        assert(decided(held, begun.0@, begun.1@));
        begun
    }

    /// Concludes an exchange whose request was forwarded: a response of the
    /// origin passes through the response phase of `handler` and what that
    /// returns is the answer; a failure of the transport is answered with a
    /// `502` that the handler does not see. An exchange that is not with the
    /// outbound transport is left as it is and gives `None`.
    pub fn conclude<H: HttpHandler>(
        &mut self,
        handler: &mut H,
        ctx: &HttpContext,
        outcome: Result<Response, UpstreamError>,
    ) -> (answer: Option<Response>)
        ensures
            answer is Some == (old(self)@ is Forwarding),
            old(self)@ is Forwarding ==> final(self)@ is Done,
            !(old(self)@ is Forwarding) ==> final(self)@ == old(self)@,
            old(self)@ is Forwarding && outcome is Err ==> answer.unwrap()@ == ResponseView::bad_gateway(),
    {
        match self.stage {
            Stage::Forwarding => {},
            _ => {
                return None;
            },
        }
        match outcome {
            Ok(response) => {
                match self.step(ExchangeEvent::Replied(response)) {
                    ExchangeAction::Rewrite(response) => {
                        let rewritten = handler.on_response(ctx, response);
                        match self.step(ExchangeEvent::Rewritten(rewritten)) {
                            ExchangeAction::Respond(answer) => Some(answer),
                            _ => {
                                assert(false);
                                None
                            },
                        }
                    },
                    _ => {
                        assert(false);
                        None
                    },
                }
            },
            Err(e) => {
                match self.step(ExchangeEvent::Failed(e)) {
                    ExchangeAction::Respond(answer) => Some(answer),
                    _ => {
                        assert(false);
                        None
                    },
                }
            },
        }
    }
}

} // verus!
