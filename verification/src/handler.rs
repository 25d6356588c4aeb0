//! The interception contract: where outside code inspects, rewrites, answers
//! or drops what passes through the proxy.

use crate::address::SocketAddress;
use crate::message::{Request, RequestView, Response, ResponseView};
use crate::websocket::Frame;
use vstd::prelude::*;

verus! {

/// What a handler is told about the connection that a message came on.
#[derive(Clone, Copy, Debug, PartialEq, Eq, Structural)]
pub struct HttpContext {
    /// The address of the client.
    pub client_addr: SocketAddress,
}

/// What the request phase decides: a request to go on with, or a response
/// that answers the client at once.
#[derive(Clone, Debug, PartialEq, Eq)]
pub enum RequestOrResponse {
    Request(Request),
    Response(Response),
}

/// What a decision holds.
pub enum DecisionView {
    Request(RequestView),
    Response(ResponseView),
}

impl View for RequestOrResponse {
    type V = DecisionView;

    open spec fn view(&self) -> DecisionView {
        match self {
            RequestOrResponse::Request(request) => DecisionView::Request(request@),
            RequestOrResponse::Response(response) => DecisionView::Response(response@),
        }
    }
}

/// Handles the requests and responses of intercepted exchanges.
pub trait HttpHandler {
    /// Called with each request before it is forwarded. Returns the request
    /// to go on with, or a response that is sent to the client in place of
    /// contacting the origin.
    fn on_request(&mut self, ctx: &HttpContext, request: Request) -> RequestOrResponse;

    /// Called with each response of an origin before it is sent to the
    /// client. Returns the response to send.
    fn on_response(&mut self, ctx: &HttpContext, response: Response) -> Response;
}

/// Handles the frames of intercepted WebSocket connections.
pub trait WebSocketHandler {
    /// Called with each frame that the client sent. Returns the frame to
    /// send to the origin, or `None` to drop it.
    fn on_client_frame(&mut self, frame: Frame) -> Option<Frame>;

    /// Called with each frame that the origin sent. Returns the frame to
    /// send to the client, or `None` to drop it.
    fn on_server_frame(&mut self, frame: Frame) -> Option<Frame>;
}

/// The handler that changes nothing: every request, response and frame goes
/// on as it came.
#[derive(Clone, Copy, Debug, Default)]
pub struct Passthrough;

impl HttpHandler for Passthrough {
    fn on_request(&mut self, ctx: &HttpContext, request: Request) -> (decision: RequestOrResponse)
        ensures
            decision == RequestOrResponse::Request(request),
    {
        RequestOrResponse::Request(request)
    }

    fn on_response(&mut self, ctx: &HttpContext, response: Response) -> (sent: Response)
        ensures
            sent == response,
    {
        response
    }
}

impl WebSocketHandler for Passthrough {
    fn on_client_frame(&mut self, frame: Frame) -> (kept: Option<Frame>)
        ensures
            kept == Some(frame),
    {
        Some(frame)
    }

    fn on_server_frame(&mut self, frame: Frame) -> (kept: Option<Frame>)
        ensures
            kept == Some(frame),
    {
        Some(frame)
    }
}

} // verus!
