//! What is read off an incoming call before it is served: its cookies, the
//! segments of its path, whether its sender is logged in, and which device
//! it is for.

use crate::error::ExchangeError;
use crate::http::response::{RedirectType, ResponseView, ServerResponse, Status};
use crate::message::Response;
use crate::registry::{resolve_spec, Address, Registry};
use crate::text::{piece_views, split, split_once, split_once_spec, split_spec};
use vstd::prelude::*;

verus! {

/// One cookie of a call.
#[derive(Clone, Debug, PartialEq, Eq)]
pub struct Cookie {
    pub name: Vec<u8>,
    pub value: Vec<u8>,
}

/// Name and value of each cookie, in order.
pub open spec fn cookie_views(cookies: Seq<Cookie>) -> Seq<(Seq<u8>, Seq<u8>)> {
    Seq::new(cookies.len(), |i: int| (cookies[i].name@, cookies[i].value@))
}

/// The two bytes that stand between the cookies of a header: `"; "`.
pub open spec fn cookie_separator() -> Seq<u8> {
    seq![0x3Bu8, 0x20u8]
}

/// The name of the cookie that holds the address of the preferred device:
/// `"backend"`.
pub open spec fn backend_cookie() -> Seq<u8> {
    seq![0x62u8, 0x61u8, 0x63u8, 0x6Bu8, 0x65u8, 0x6Eu8, 0x64u8]
}

/// The name of the cookie that holds the login token: `"token"`.
pub open spec fn token_cookie() -> Seq<u8> {
    seq![0x74u8, 0x6Fu8, 0x6Bu8, 0x65u8, 0x6Eu8]
}

/// The cookies among these pieces: each piece that holds a `=` is a cookie,
/// named by what stands before its first `=` and worth what stands after it.
/// A piece without `=` is passed over.
pub open spec fn pairs_of(pieces: Seq<Seq<u8>>) -> Seq<(Seq<u8>, Seq<u8>)>
    decreases pieces.len(),
{
    if pieces.len() == 0 {
        Seq::empty()
    } else {
        match split_once_spec(pieces.last(), 0x3Du8) {
            Some(pair) => pairs_of(pieces.drop_last()).push(pair),
            None => pairs_of(pieces.drop_last()),
        }
    }
}

/// The cookies that a `Cookie` header holds, in the order in which it holds
/// them.
pub open spec fn cookies_spec(header: Seq<u8>) -> Seq<(Seq<u8>, Seq<u8>)> {
    pairs_of(split_spec(header, cookie_separator()))
}

/// The value of the cookie called `name`: that of the last one, where
/// several are called so.
pub open spec fn lookup_spec(cookies: Seq<(Seq<u8>, Seq<u8>)>, name: Seq<u8>) -> Option<Seq<u8>>
    decreases cookies.len(),
{
    if cookies.len() == 0 {
        None
    } else if cookies.last().0 == name {
        Some(cookies.last().1)
    } else {
        lookup_spec(cookies.drop_last(), name)
    }
}

/// Reads the cookies off a `Cookie` header.
pub fn get_cookies(header: &[u8]) -> (cookies: Vec<Cookie>)
    ensures
        cookie_views(cookies@) == cookies_spec(header@),
{
    let separator: [u8; 2] = [0x3Bu8, 0x20u8];
    assert(separator@ =~= cookie_separator());
    let pieces = split(header, vstd::array::array_as_slice(&separator));
    let ghost all = piece_views(pieces@);
    let mut cookies: Vec<Cookie> = Vec::new();
    let mut i: usize = 0;
    assert(all.take(0) =~= Seq::empty());
    assert(cookie_views(cookies@) =~= Seq::empty());
    while i < pieces.len()
        invariant
            i <= pieces@.len(),
            all == piece_views(pieces@),
            cookie_views(cookies@) == pairs_of(all.take(i as int)),
        decreases pieces@.len() - i,
    {
        let ghost before = cookie_views(cookies@);
        proof {
            assert(all.take(i + 1).drop_last() =~= all.take(i as int));
            assert(all.take(i + 1).last() == pieces@[i as int]@);
        }
        match split_once(pieces[i].as_slice(), 0x3Du8) {
            Some((name, value)) => {
                cookies.push(Cookie { name, value });
                assert(cookie_views(cookies@) =~= before.push((name@, value@)));
            },
            None => {},
        }
        i += 1;
    }
    assert(all.take(i as int) =~= all);
    cookies
}

fn same_bytes(a: &[u8], b: &[u8]) -> (same: bool)
    ensures
        same == (a@ == b@),
{
    if a.len() != b.len() {
        return false;
    }
    let mut i: usize = 0;
    while i < a.len()
        invariant
            i <= a@.len(),
            a@.len() == b@.len(),
            forall|j: int| 0 <= j < i ==> a@[j] == b@[j],
        decreases a@.len() - i,
    {
        if a[i] != b[i] {
            return false;
        }
        i += 1;
    }
    assert(a@ =~= b@);
    true
}

/// The value of the cookie called `name`, if there is one: that of the last
/// one, where several are called so.
pub fn lookup<'a>(cookies: &'a Vec<Cookie>, name: &[u8]) -> (value: Option<&'a Vec<u8>>)
    ensures
        match value {
            Some(v) => lookup_spec(cookie_views(cookies@), name@) == Some(v@),
            None => lookup_spec(cookie_views(cookies@), name@) is None,
        },
{
    let ghost all = cookie_views(cookies@);
    let mut i: usize = cookies.len();
    assert(all.take(i as int) =~= all);
    while i > 0
        invariant
            i <= cookies@.len(),
            all == cookie_views(cookies@),
            lookup_spec(all, name@) == lookup_spec(all.take(i as int), name@),
        decreases i,
    {
        proof {
            assert(all.take(i as int).drop_last() =~= all.take(i - 1));
            assert(all.take(i as int).last() == all[i - 1]);
        }
        if same_bytes(cookies[i - 1].name.as_slice(), name) {
            return Some(&cookies[i - 1].value);
        }
        i -= 1;
    }
    None
}

/// The pieces that are not empty, in order.
pub open spec fn nonempty_of(pieces: Seq<Seq<u8>>) -> Seq<Seq<u8>>
    decreases pieces.len(),
{
    if pieces.len() == 0 {
        Seq::empty()
    } else if pieces.last().len() > 0 {
        nonempty_of(pieces.drop_last()).push(pieces.last())
    } else {
        nonempty_of(pieces.drop_last())
    }
}

/// The segments of a path: what stands between its slashes, without what is
/// empty.
pub open spec fn segments_spec(path: Seq<u8>) -> Seq<Seq<u8>> {
    nonempty_of(split_spec(path, seq![0x2Fu8]))
}

/// The device a call is served by, and what the page shows of the others.
pub struct BackendData<H> {
    /// Address and nickname of every connected device, in ascending order of
    /// address.
    pub backend_list: Vec<(Address, String)>,
    pub current_backend: CurrentBackendData<H>,
}

/// The device a call is served by.
pub struct CurrentBackendData<H> {
    pub addr: Address,
    pub handle: H,
    pub update: Option<String>,
}

/// What the dashboard is set up to do, as far as it bears on a call.
#[derive(Clone, Copy, Debug, PartialEq, Eq, Structural)]
pub struct FrontendConfig {
    /// Does the dashboard ask its users to log in?
    pub enable_login: bool,
}

/// What a [`ServerRequest`] is to a contract.
pub struct RequestView<B> {
    pub path: Seq<u8>,
    pub cookies: Seq<(Seq<u8>, Seq<u8>)>,
    /// Was the call made by script from within a page, so that it is
    /// answered with a fragment and not with a whole page?
    pub fixi: bool,
    pub config: FrontendConfig,
    /// The body, until it is taken.
    pub body: Option<B>,
}

/// An incoming call. `B` is its body, which this library only hands on.
pub struct ServerRequest<B> {
    path: Vec<u8>,
    cookies: Vec<Cookie>,
    fixi: bool,
    config: FrontendConfig,
    body: Option<B>,
}

impl<B> View for ServerRequest<B> {
    type V = RequestView<B>;

    closed spec fn view(&self) -> RequestView<B> {
        RequestView {
            path: self.path@,
            cookies: cookie_views(self.cookies@),
            fixi: self.fixi,
            config: self.config,
            body: self.body,
        }
    }
}

/// The page that sends a browser to the login form from within a fragment.
pub open spec fn login_refresh() -> Seq<char> {
    "<meta http-equiv=\"refresh\" content=\"0; url=/login\" />"@
}

/// What a caller who is not logged in is answered: a redirect to the login
/// form, or, to a call made by script, a fragment that does the same.
pub open spec fn login_response(fixi: bool) -> ResponseView {
    if fixi {
        ResponseView::plain(Status::Success, login_refresh())
    } else {
        ResponseView::fresh().redirected(RedirectType::SeeOther, "/login"@)
    }
}

/// Is the sender of this call let in? Always where the dashboard asks for no
/// login; else where the call carries a token that the dashboard knows.
pub open spec fn logged_in<B>(req: RequestView<B>, token_known: bool) -> bool {
    !req.config.enable_login || (lookup_spec(req.cookies, token_cookie()) is Some && token_known)
}

impl<B> ServerRequest<B> {
    /// A call with this path, this `Cookie` header (empty where it has none)
    /// and this body.
    pub fn new(path: Vec<u8>, cookie_header: &[u8], fixi: bool, config: FrontendConfig, body: B) -> (r:
        ServerRequest<B>)
        ensures
            r@ == (RequestView {
                path: path@,
                cookies: cookies_spec(cookie_header@),
                fixi,
                config,
                body: Some(body),
            }),
    {
        ServerRequest { path, cookies: get_cookies(cookie_header), fixi, config, body: Some(body) }
    }

    /// The segments of the call's path.
    pub fn path_segments(&self) -> (segments: Vec<Vec<u8>>)
        ensures
            piece_views(segments@) == segments_spec(self@.path),
    {
        let slash: [u8; 1] = [0x2Fu8];
        assert(slash@ =~= seq![0x2Fu8]);
        let pieces = split(self.path.as_slice(), vstd::array::array_as_slice(&slash));
        let ghost all = piece_views(pieces@);
        let mut segments: Vec<Vec<u8>> = Vec::new();
        assert(all.take(0) =~= Seq::empty());
        assert(piece_views(segments@) =~= Seq::empty());
        for piece in it: pieces
            invariant
                piece_views(it.seq()) == all,
                piece_views(segments@) == nonempty_of(all.take(it.index() as int)),
        {
            let ghost before = piece_views(segments@);
            proof {
                assert(all.take(it.index() + 1).drop_last() =~= all.take(it.index() as int));
                assert(all.take(it.index() + 1).last() == piece@);
            }
            if piece.len() > 0 {
                segments.push(piece);
                assert(piece_views(segments@) =~= before.push(piece@));
            }
        }
        assert(all.take(all.len() as int) =~= all);
        segments
    }

    /// The value of the cookie called `name`, if the call has one.
    pub fn cookie(&self, name: &[u8]) -> (value: Option<&Vec<u8>>)
        ensures
            match value {
                Some(v) => lookup_spec(self@.cookies, name@) == Some(v@),
                None => lookup_spec(self@.cookies, name@) is None,
            },
    {
        lookup(&self.cookies, name)
    }

    /// What the call's `backend` cookie holds, if it has one: the address of
    /// the device its sender would like to be served by, as text.
    pub fn backend_preference(&self) -> (value: Option<&Vec<u8>>)
        ensures
            match value {
                Some(v) => lookup_spec(self@.cookies, backend_cookie()) == Some(v@),
                None => lookup_spec(self@.cookies, backend_cookie()) is None,
            },
    {
        let name: [u8; 7] = [0x62u8, 0x61u8, 0x63u8, 0x6Bu8, 0x65u8, 0x6Eu8, 0x64u8];
        assert(name@ =~= backend_cookie());
        lookup(&self.cookies, vstd::array::array_as_slice(&name))
    }

    /// The login token that the call carries, if it carries one.
    pub fn login_token(&self) -> (value: Option<&Vec<u8>>)
        ensures
            match value {
                Some(v) => lookup_spec(self@.cookies, token_cookie()) == Some(v@),
                None => lookup_spec(self@.cookies, token_cookie()) is None,
            },
    {
        let name: [u8; 5] = [0x74u8, 0x6Fu8, 0x6Bu8, 0x65u8, 0x6Eu8];
        assert(name@ =~= token_cookie());
        lookup(&self.cookies, vstd::array::array_as_slice(&name))
    }

    /// Was the call made by script from within a page?
    pub fn is_fixi(&self) -> (b: bool)
        ensures
            b == self@.fixi,
    {
        self.fixi
    }

    /// What the dashboard is set up to do.
    pub fn config(&self) -> (config: &FrontendConfig)
        ensures
            *config == self@.config,
    {
        &self.config
    }

    /// Lets the caller in or sends it to the login form. `token_known` says
    /// whether the token that [`ServerRequest::login_token`] gives is one the
    /// dashboard has handed out; it is not looked at where the call carries
    /// no token.
    pub fn check_login(&self, token_known: bool) -> (r: Result<(), ServerResponse>)
        ensures
            r is Ok == logged_in(self@, token_known),
            r matches Err(response) ==> response@ == login_response(self@.fixi),
    {
        if self.config.enable_login {
            let known = match self.login_token() {
                Some(_) => token_known,
                None => false,
            };
            if !known {
                if self.fixi {
                    return Err(
                        ServerResponse::new().body(
                            "<meta http-equiv=\"refresh\" content=\"0; url=/login\" />".to_owned(),
                        ),
                    );
                } else {
                    return Err(ServerResponse::new().redirect(RedirectType::SeeOther, "/login"));
                }
            }
        }
        Ok(())
    }

    /// Hands out the body of the call. It can be taken once; a second
    /// attempt is answered with an error.
    pub fn extract_body(&mut self) -> (r: Result<B, ServerResponse>)
        ensures
            final(self)@ == (RequestView { body: None, ..old(self)@ }),
            match r {
                Ok(body) => old(self)@.body == Some(body),
                Err(response) => old(self)@.body is None && response@ == ResponseView::plain(
                    Status::InternalServerError,
                    "form already extracted"@,
                ),
            },
    {
        match self.body.take() {
            Some(body) => Ok(body),
            None => Err(
                ServerResponse::plain(Status::InternalServerError, "form already extracted"),
            ),
        }
    }

    /// The device this call is served by, and the list of all devices. The
    /// call is served by the device at `preferred`, the address that its
    /// `backend` cookie holds, where the cookie holds one and a device is
    /// registered there, and else by the first device of the directory. With
    /// no device registered, the answer is that the service is unavailable.
    pub fn extract_backends<H: Clone>(&self, registry: &Registry<H>, preferred: Option<Address>)
        -> (r: Result<BackendData<H>, ServerResponse>)
        ensures
            r is Err == (registry@.len() == 0),
            r matches Err(response) ==> response@ == ResponseView::plain(
                Status::ServiceUnavailable,
                "no connected backends"@,
            ),
            r matches Ok(data) ==> {
                let chosen = resolve_spec(registry@, preferred)->0;
                &&& data.backend_list@.len() == registry@.len()
                &&& forall|i: int|
                    0 <= i < registry@.len() ==> (#[trigger] data.backend_list@[i]).0
                        == registry@[i].address && data.backend_list@[i].1@
                        == registry@[i].nickname@
                &&& data.current_backend.addr == chosen.address
                &&& cloned(chosen.handle, data.current_backend.handle)
                &&& data.current_backend.update == chosen.pending_update
            },
    {
        let backend_list = match registry.list() {
            Ok(list) => list,
            Err(empty) => {
                return Err(ServerResponse::plain(Status::ServiceUnavailable, empty.message()));
            },
        };
        match registry.resolve(preferred) {
            Ok(info) => {
                let update = match &info.pending_update {
                    Some(version) => Some(version.clone()),
                    None => None,
                };
                Ok(
                    BackendData {
                        backend_list,
                        current_backend: CurrentBackendData {
                            addr: info.address,
                            handle: info.handle.clone(),
                            update,
                        },
                    },
                )
            },
            Err(empty) => Err(ServerResponse::plain(Status::ServiceUnavailable, empty.message())),
        }
    }
}

/// The text that says why a request to a device yielded no reply.
pub open spec fn failure_text(e: ExchangeError) -> Seq<char> {
    match e {
        ExchangeError::Unreachable => "device unreachable"@,
        ExchangeError::ProtocolViolation => "reply does not match its request"@,
    }
}

/// What the caller gets when a request to a device yielded no reply.
pub fn backend_request_failed(e: ExchangeError) -> (r: ServerResponse)
    ensures
        r@ == ResponseView::plain(Status::BadGateway, "backend request failed: "@ + failure_text(e)),
{
    ServerResponse::explained(Status::BadGateway, "backend request failed: ", e.message())
}

/// What the caller gets when a device was asked: the reply, or the answer
/// that the device could not be reached or did not keep to the protocol.
pub fn backend_reply(outcome: Result<Response, ExchangeError>) -> (r: Result<
    Response,
    ServerResponse,
>)
    ensures
        match outcome {
            Ok(response) => r == Ok::<Response, ServerResponse>(response),
            Err(e) => r is Err && r->Err_0@ == ResponseView::plain(
                Status::BadGateway,
                "backend request failed: "@ + failure_text(e),
            ),
        },
{
    match outcome {
        Ok(response) => Ok(response),
        Err(e) => Err(backend_request_failed(e)),
    }
}

/// What the caller gets when an action could not be handed to a device.
pub fn backend_action_failed() -> (r: ServerResponse)
    ensures
        r@ == ResponseView::plain(
            Status::BadGateway,
            "backend action failed: "@ + "device unreachable"@,
        ),
{
    ServerResponse::explained(Status::BadGateway, "backend action failed: ", "device unreachable")
}

/// What the caller gets when the query of its call cannot be read.
pub fn invalid_query(reason: &str) -> (r: ServerResponse)
    ensures
        r@ == ResponseView::plain(Status::BadRequest, "invalid query params: "@ + reason@),
{
    ServerResponse::explained(Status::BadRequest, "invalid query params: ", reason)
}

/// What the caller gets when the body of its call cannot be received.
pub fn needs_body() -> (r: ServerResponse)
    ensures
        r@ == ResponseView::plain(Status::BadRequest, "needs body"@),
{
    ServerResponse::plain(Status::BadRequest, "needs body")
}

/// What the caller gets when the form in the body of its call cannot be
/// read.
pub fn invalid_form() -> (r: ServerResponse)
    ensures
        r@ == ResponseView::plain(Status::BadRequest, "invalid form body"@),
{
    ServerResponse::plain(Status::BadRequest, "invalid form body")
}

} // verus!
