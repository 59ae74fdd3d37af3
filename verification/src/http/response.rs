//! An HTTP response as plain data: a status, headers in the order in which
//! they were added, and a body of text.

use vstd::prelude::*;

verus! {

/// The two ways of sending a browser elsewhere.
#[derive(Clone, Copy, Debug, PartialEq, Eq, Structural)]
pub enum RedirectType {
    Permanent,
    SeeOther,
}

/// The status codes that responses are given.
#[derive(Clone, Copy, Debug, PartialEq, Eq, Structural)]
pub enum Status {
    Success,
    SeeOther,
    PermanentRedirect,
    BadRequest,
    InternalServerError,
    BadGateway,
    ServiceUnavailable,
}

impl Status {
    /// The number that goes on the wire.
    pub open spec fn code_spec(self) -> u16 {
        match self {
            Status::Success => 200,
            Status::SeeOther => 303,
            Status::PermanentRedirect => 308,
            Status::BadRequest => 400,
            Status::InternalServerError => 500,
            Status::BadGateway => 502,
            Status::ServiceUnavailable => 503,
        }
    }

    /// The number that goes on the wire.
    #[verifier::when_used_as_spec(code_spec)]
    pub fn code(self) -> (c: u16)
        ensures
            c == self.code_spec(),
    {
        match self {
            Status::Success => 200,
            Status::SeeOther => 303,
            Status::PermanentRedirect => 308,
            Status::BadRequest => 400,
            Status::InternalServerError => 500,
            Status::BadGateway => 502,
            Status::ServiceUnavailable => 503,
        }
    }
}

/// The status that goes with a redirect.
pub open spec fn redirect_status(typ: RedirectType) -> Status {
    match typ {
        RedirectType::Permanent => Status::PermanentRedirect,
        RedirectType::SeeOther => Status::SeeOther,
    }
}

/// One header line.
#[derive(Clone, Debug, PartialEq, Eq)]
pub struct Header {
    pub name: String,
    pub value: String,
}

/// A response under construction.
#[derive(Clone, Debug, PartialEq, Eq)]
pub struct ServerResponse {
    pub status: Status,
    pub headers: Vec<Header>,
    pub body: String,
}

/// What a [`ServerResponse`] is to a contract.
pub struct ResponseView {
    pub status: Status,
    /// Name and value of each header, in the order in which they were added.
    pub headers: Seq<(Seq<char>, Seq<char>)>,
    pub body: Seq<char>,
}

/// Name and value of each header, in order.
pub open spec fn header_views(headers: Seq<Header>) -> Seq<(Seq<char>, Seq<char>)> {
    Seq::new(headers.len(), |i: int| (headers[i].name@, headers[i].value@))
}

impl View for ServerResponse {
    type V = ResponseView;

    open spec fn view(&self) -> ResponseView {
        ResponseView { status: self.status, headers: header_views(self.headers@), body: self.body@ }
    }
}

impl ResponseView {
    /// The response that every construction starts from: status 200, no
    /// header, no body.
    pub open spec fn fresh() -> ResponseView {
        ResponseView { status: Status::Success, headers: Seq::empty(), body: Seq::empty() }
    }

    /// A response with nothing but a status and a body.
    pub open spec fn plain(status: Status, body: Seq<char>) -> ResponseView {
        ResponseView { status, headers: Seq::empty(), body }
    }

    /// This response as a redirect to `path`.
    pub open spec fn redirected(self, typ: RedirectType, path: Seq<char>) -> ResponseView {
        ResponseView {
            status: redirect_status(typ),
            headers: self.headers.push(("location"@, path)),
            body: self.body,
        }
    }
}

impl ServerResponse {
    /// A response with status 200, no header and no body.
    pub fn new() -> (r: ServerResponse)
        ensures
            r@ == ResponseView::fresh(),
    {
        let r = ServerResponse { status: Status::Success, headers: Vec::new(), body: String::new() };
        assert(header_views(r.headers@) =~= Seq::empty());
        r
    }

    /// The same response with another status.
    pub fn status(self, status: Status) -> (r: ServerResponse)
        ensures
            r@ == (ResponseView { status, headers: self@.headers, body: self@.body }),
    {
        ServerResponse { status, headers: self.headers, body: self.body }
    }

    /// The same response with one more header, behind those it has.
    pub fn header(self, key: &str, value: &str) -> (r: ServerResponse)
        ensures
            r@ == (ResponseView {
                status: self@.status,
                headers: self@.headers.push((key@, value@)),
                body: self@.body,
            }),
    {
        let mut headers = self.headers;
        headers.push(Header { name: key.to_owned(), value: value.to_owned() });
        assert(header_views(headers@) =~= self@.headers.push((key@, value@)));
        ServerResponse { status: self.status, headers, body: self.body }
    }

    /// The same response as a redirect to `path`: the status says which kind
    /// of redirect, and a `location` header says where to.
    pub fn redirect(self, typ: RedirectType, path: &str) -> (r: ServerResponse)
        ensures
            r@ == self@.redirected(typ, path@),
    {
        let status = match typ {
            RedirectType::Permanent => Status::PermanentRedirect,
            RedirectType::SeeOther => Status::SeeOther,
        };
        self.status(status).header("location", path)
    }

    /// The same response with another body.
    pub fn body(self, body: String) -> (r: ServerResponse)
        ensures
            r@ == (ResponseView { status: self@.status, headers: self@.headers, body: body@ }),
    {
        ServerResponse { status: self.status, headers: self.headers, body }
    }

    /// A response with nothing but this status and this text.
    pub fn plain(status: Status, text: &str) -> (r: ServerResponse)
        ensures
            r@ == ResponseView::plain(status, text@),
    {
        ServerResponse::new().status(status).body(text.to_owned())
    }

    /// A response with this status and a text made of `prefix` and `reason`.
    pub fn explained(status: Status, prefix: &str, reason: &str) -> (r: ServerResponse)
        ensures
            r@ == ResponseView::plain(status, prefix@ + reason@),
    {
        ServerResponse::new().status(status).body(prefix.to_owned().concat(reason))
    }

    /// The response that carries a page of markup.
    pub fn html(page: String) -> (r: ServerResponse)
        ensures
            r@ == (ResponseView {
                status: Status::Success,
                headers: seq![("content-type"@, "text/html;charset=UTF-8"@)],
                body: page@,
            }),
    {
        let r = ServerResponse::new().header("content-type", "text/html;charset=UTF-8").body(page);
        assert(r@.headers =~= seq![("content-type"@, "text/html;charset=UTF-8"@)]);
        r
    }
}

} // verus!
