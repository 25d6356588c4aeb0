//! HTTP requests and responses as plain values.
//!
//! Header fields are kept as the bytes that were received, in the order in
//! which they were received: nothing here changes the case of a name or
//! moves a field.

use crate::ascii::{bytes_eq, bytes_eq_ignore_case, eq_ignore_case, has_token, list_has_token};
use vstd::prelude::*;
use vstd::string::is_ascii_spec_bytes;

verus! {

/// The bytes of an ASCII text.
pub open spec fn ascii(text: Seq<char>) -> Seq<u8> {
    Seq::new(text.len(), |i: int| text[i] as u8)
}

/// The bytes of an ASCII text.
pub fn ascii_bytes(text: &str) -> (bytes: &[u8])
    requires
        text.is_ascii(),
    ensures
        bytes@ == ascii(text@),
{
    broadcast use is_ascii_spec_bytes;

    text.as_bytes()
}

/// The version of HTTP that a message was written in.
#[derive(Clone, Copy, Debug, PartialEq, Eq, Structural)]
pub enum Version {
    Http09,
    Http10,
    Http11,
    H2,
    H3,
}

/// One header field.
#[derive(Clone, Debug, PartialEq, Eq)]
pub struct Header {
    pub name: Vec<u8>,
    pub value: Vec<u8>,
}

/// What a header field holds.
pub struct HeaderView {
    pub name: Seq<u8>,
    pub value: Seq<u8>,
}

impl View for Header {
    type V = HeaderView;

    open spec fn view(&self) -> HeaderView {
        HeaderView { name: self.name@, value: self.value@ }
    }
}

/// What a list of header fields holds, field by field.
pub open spec fn header_views(headers: Seq<Header>) -> Seq<HeaderView> {
    headers.map_values(|h: Header| h@)
}

/// Whether the field is named `name`, case aside, and lists `token`.
pub open spec fn field_has_token(field: HeaderView, name: Seq<u8>, token: Seq<u8>) -> bool {
    eq_ignore_case(field.name, name) && list_has_token(field.value, token)
}

/// Whether some field named `name`, case aside, lists `token`.
pub open spec fn fields_have_token(fields: Seq<HeaderView>, name: Seq<u8>, token: Seq<u8>) -> bool {
    exists|h: int| 0 <= h < fields.len() && field_has_token(#[trigger] fields[h], name, token)
}

/// Whether some field named `name`, case aside, lists `token`.
pub fn headers_have_token(headers: &Vec<Header>, name: &[u8], token: &[u8]) -> (r: bool)
    ensures
        r == fields_have_token(header_views(headers@), name@, token@),
{
    let ghost fields = header_views(headers@);
    let mut h: usize = 0;
    while h < headers.len()
        invariant
            fields == header_views(headers@),
            0 <= h <= headers@.len(),
            forall|m: int| 0 <= m < h ==> !field_has_token(#[trigger] fields[m], name@, token@),
        decreases headers@.len() - h,
    {
        assert(fields[h as int] == headers@[h as int]@);
        if bytes_eq_ignore_case(headers[h].name.as_slice(), name) && has_token(
            headers[h].value.as_slice(),
            token,
        ) {
            return true;
        }
        h = h + 1;
    }
    false
}

/// An HTTP request.
#[derive(Clone, Debug, PartialEq, Eq)]
pub struct Request {
    pub method: Vec<u8>,
    pub target: Vec<u8>,
    pub version: Version,
    pub headers: Vec<Header>,
    pub body: Vec<u8>,
}

/// What a request holds.
pub struct RequestView {
    pub method: Seq<u8>,
    pub target: Seq<u8>,
    pub version: Version,
    pub headers: Seq<HeaderView>,
    pub body: Seq<u8>,
}

impl View for Request {
    type V = RequestView;

    open spec fn view(&self) -> RequestView {
        RequestView {
            method: self.method@,
            target: self.target@,
            version: self.version,
            headers: header_views(self.headers@),
            body: self.body@,
        }
    }
}

impl RequestView {
    /// Whether the method is `CONNECT`.
    pub open spec fn is_connect(self) -> bool {
        self.method == ascii("CONNECT"@)
    }

    /// Whether the request asks to switch to the WebSocket protocol: a
    /// `Connection` field lists `upgrade` and an `Upgrade` field lists
    /// `websocket`, case aside.
    pub open spec fn is_upgrade(self) -> bool {
        &&& fields_have_token(self.headers, ascii("connection"@), ascii("upgrade"@))
        &&& fields_have_token(self.headers, ascii("upgrade"@), ascii("websocket"@))
    }
}

impl Request {
    /// Whether the method is `CONNECT`.
    pub fn is_connect(&self) -> (r: bool)
        ensures
            r == self@.is_connect(),
    {
        proof {
            reveal_strlit("CONNECT");
        }
        bytes_eq(self.method.as_slice(), ascii_bytes("CONNECT"))
    }

    /// Whether the request asks to switch to the WebSocket protocol.
    pub fn is_upgrade(&self) -> (r: bool)
        ensures
            r == self@.is_upgrade(),
    {
        proof {
            reveal_strlit("connection");
            reveal_strlit("upgrade");
            reveal_strlit("websocket");
        }
        headers_have_token(&self.headers, ascii_bytes("connection"), ascii_bytes("upgrade"))
            && headers_have_token(&self.headers, ascii_bytes("upgrade"), ascii_bytes("websocket"))
    }
}

/// An HTTP response.
#[derive(Clone, Debug, PartialEq, Eq)]
pub struct Response {
    pub status: u16,
    pub version: Version,
    pub headers: Vec<Header>,
    pub body: Vec<u8>,
}

/// What a response holds.
pub struct ResponseView {
    pub status: u16,
    pub version: Version,
    pub headers: Seq<HeaderView>,
    pub body: Seq<u8>,
}

impl View for Response {
    type V = ResponseView;

    open spec fn view(&self) -> ResponseView {
        ResponseView {
            status: self.status,
            version: self.version,
            headers: header_views(self.headers@),
            body: self.body@,
        }
    }
}

impl ResponseView {
    /// The HTTP/1.1 response with the given status, no header field and no body.
    pub open spec fn empty(status: u16) -> ResponseView {
        ResponseView { status, version: Version::Http11, headers: Seq::empty(), body: Seq::empty() }
    }

    /// `200`: the answer to a `CONNECT` whose tunnel is open.
    pub open spec fn established() -> ResponseView {
        Self::empty(200)
    }

    /// `400`: the answer to a malformed request.
    pub open spec fn bad_request() -> ResponseView {
        Self::empty(400)
    }

    /// `502`: the answer where the origin could not be reached, or answered
    /// with something malformed.
    pub open spec fn bad_gateway() -> ResponseView {
        Self::empty(502)
    }

    /// `503` with the field `connection: close`: the answer to a request that
    /// arrives on a connection that is closing.
    pub open spec fn closing() -> ResponseView {
        ResponseView {
            status: 503,
            version: Version::Http11,
            headers: seq![HeaderView { name: ascii("connection"@), value: ascii("close"@) }],
            body: Seq::empty(),
        }
    }

    /// Whether the status is in the `5xx` class.
    pub open spec fn is_server_error(self) -> bool {
        500 <= self.status <= 599
    }
}

impl Response {
    /// The HTTP/1.1 response with the given status, no header field and no body.
    pub fn empty(status: u16) -> (r: Response)
        ensures
            r@ == ResponseView::empty(status),
    {
        let r = Response { status, version: Version::Http11, headers: Vec::new(), body: Vec::new() };
        assert(r@.headers =~= Seq::empty());
        r
    }

    /// `200`: the answer to a `CONNECT` whose tunnel is open.
    pub fn established() -> (r: Response)
        ensures
            r@ == ResponseView::established(),
    {
        Self::empty(200)
    }

    /// `400`: the answer to a malformed request.
    pub fn bad_request() -> (r: Response)
        ensures
            r@ == ResponseView::bad_request(),
    {
        Self::empty(400)
    }

    /// `502`: the answer where the origin could not be reached.
    pub fn bad_gateway() -> (r: Response)
        ensures
            r@ == ResponseView::bad_gateway(),
    {
        Self::empty(502)
    }

    /// `503` with the field `connection: close`.
    pub fn closing() -> (r: Response)
        ensures
            r@ == ResponseView::closing(),
    {
        proof {
            reveal_strlit("connection");
            reveal_strlit("close");
        }
        let field = Header {
            name: vstd::slice::slice_to_vec(ascii_bytes("connection")),
            value: vstd::slice::slice_to_vec(ascii_bytes("close")),
        };
        let mut headers: Vec<Header> = Vec::new();
        headers.push(field);
        let r = Response { status: 503, version: Version::Http11, headers, body: Vec::new() };
        assert(r@.headers =~= ResponseView::closing().headers);
        r
    }
}

} // verus!
