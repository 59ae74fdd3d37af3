use dashboard_core::error::ExchangeError;
use dashboard_core::http::request::{
    backend_action_failed, backend_reply, get_cookies, invalid_form, invalid_query, lookup,
    needs_body, Cookie, FrontendConfig, ServerRequest,
};
use dashboard_core::http::response::{Header, RedirectType, ServerResponse, Status};
use dashboard_core::message::{NetworkIo, Response};
use dashboard_core::registry::{Address, DeviceInfo, Registry};

fn cookie(name: &str, value: &str) -> Cookie {
    Cookie { name: name.as_bytes().to_vec(), value: value.as_bytes().to_vec() }
}

fn header(name: &str, value: &str) -> Header {
    Header { name: name.to_string(), value: value.to_string() }
}

fn plain(status: Status, body: &str) -> ServerResponse {
    ServerResponse { status, headers: Vec::new(), body: body.to_string() }
}

fn request(path: &str, cookies: &str, fixi: bool, enable_login: bool) -> ServerRequest<u8> {
    ServerRequest::new(
        path.as_bytes().to_vec(),
        cookies.as_bytes(),
        fixi,
        FrontendConfig { enable_login },
        7,
    )
}

#[test]
fn status_codes_are_the_standard_ones() {
    assert_eq!(Status::Success.code(), 200);
    assert_eq!(Status::SeeOther.code(), 303);
    assert_eq!(Status::PermanentRedirect.code(), 308);
    assert_eq!(Status::BadRequest.code(), 400);
    assert_eq!(Status::InternalServerError.code(), 500);
    assert_eq!(Status::BadGateway.code(), 502);
    assert_eq!(Status::ServiceUnavailable.code(), 503);
}

#[test]
fn new_response_is_empty_and_ok() {
    assert_eq!(ServerResponse::new(), plain(Status::Success, ""));
}

#[test]
fn builders_change_one_part_each() {
    let r = ServerResponse::new()
        .status(Status::BadRequest)
        .header("x-a", "1")
        .body("hello".to_string())
        .header("x-b", "2");
    assert_eq!(r.status, Status::BadRequest);
    assert_eq!(r.headers, vec![header("x-a", "1"), header("x-b", "2")]);
    assert_eq!(r.body, "hello");
    let r = r.status(Status::Success).body(String::new());
    assert_eq!(r.status, Status::Success);
    assert_eq!(r.headers.len(), 2);
    assert_eq!(r.body, "");
}

#[test]
fn redirect_sets_status_and_location() {
    let r = ServerResponse::new().redirect(RedirectType::SeeOther, "/login");
    assert_eq!(r.status, Status::SeeOther);
    assert_eq!(r.headers, vec![header("location", "/login")]);
    let r = ServerResponse::new().redirect(RedirectType::Permanent, "/system");
    assert_eq!(r.status, Status::PermanentRedirect);
    assert_eq!(r.headers, vec![header("location", "/system")]);
}

#[test]
fn html_response_names_its_content_type() {
    let r = ServerResponse::html("<p>hi</p>".to_string());
    assert_eq!(r.status, Status::Success);
    assert_eq!(r.headers, vec![header("content-type", "text/html;charset=UTF-8")]);
    assert_eq!(r.body, "<p>hi</p>");
}

#[test]
fn plain_and_explained_responses() {
    assert_eq!(ServerResponse::plain(Status::BadGateway, "x"), plain(Status::BadGateway, "x"));
    assert_eq!(
        ServerResponse::explained(Status::BadRequest, "bad: ", "why"),
        plain(Status::BadRequest, "bad: why")
    );
}

#[test]
fn cookies_are_read_in_order() {
    assert_eq!(
        get_cookies(b"token=abc; backend=10.0.0.2; theme=dark"),
        vec![cookie("token", "abc"), cookie("backend", "10.0.0.2"), cookie("theme", "dark")]
    );
}

#[test]
fn pieces_without_equals_are_no_cookies() {
    assert_eq!(get_cookies(b""), Vec::<Cookie>::new());
    assert_eq!(get_cookies(b"junk"), Vec::<Cookie>::new());
    assert_eq!(get_cookies(b"junk; a=1; more junk; b=2"), vec![cookie("a", "1"), cookie("b", "2")]);
}

#[test]
fn cookie_value_may_hold_equals_and_be_empty() {
    assert_eq!(get_cookies(b"a=b=c; d=; =e"), vec![cookie("a", "b=c"), cookie("d", ""), cookie("", "e")]);
}

#[test]
fn separator_needs_its_space() {
    assert_eq!(get_cookies(b"a=1;b=2"), vec![cookie("a", "1;b=2")]);
}

#[test]
fn last_cookie_of_a_name_wins() {
    let cookies = get_cookies(b"backend=1.1.1.1; token=t; backend=2.2.2.2");
    assert_eq!(lookup(&cookies, b"backend"), Some(&b"2.2.2.2".to_vec()));
    assert_eq!(lookup(&cookies, b"token"), Some(&b"t".to_vec()));
    assert_eq!(lookup(&cookies, b"other"), None);
    assert_eq!(lookup(&cookies, b"backen"), None);
}

#[test]
fn request_exposes_its_cookies() {
    let req = request("/", "token=secret; backend=fe80::1", false, true);
    assert_eq!(req.cookie(b"token"), Some(&b"secret".to_vec()));
    assert_eq!(req.login_token(), Some(&b"secret".to_vec()));
    assert_eq!(req.backend_preference(), Some(&b"fe80::1".to_vec()));
    assert_eq!(req.cookie(b"missing"), None);
    let req = request("/", "", false, true);
    assert_eq!(req.login_token(), None);
    assert_eq!(req.backend_preference(), None);
}

#[test]
fn path_segments_skip_empty_pieces() {
    let segs = |p: &str| -> Vec<String> {
        request(p, "", false, false)
            .path_segments()
            .into_iter()
            .map(|s| String::from_utf8(s).unwrap())
            .collect()
    };
    assert_eq!(segs("/"), Vec::<String>::new());
    assert_eq!(segs(""), Vec::<String>::new());
    assert_eq!(segs("/system"), vec!["system"]);
    assert_eq!(segs("/process/signal"), vec!["process", "signal"]);
    assert_eq!(segs("//a///b/"), vec!["a", "b"]);
}

#[test]
fn flags_are_kept() {
    let req = request("/", "", true, false);
    assert!(req.is_fixi());
    assert_eq!(*req.config(), FrontendConfig { enable_login: false });
    let req = request("/", "", false, true);
    assert!(!req.is_fixi());
    assert!(req.config().enable_login);
}

#[test]
fn login_is_not_asked_for_when_disabled() {
    assert_eq!(request("/", "", false, false).check_login(false), Ok(()));
    assert_eq!(request("/", "token=x", true, false).check_login(false), Ok(()));
}

#[test]
fn known_token_is_let_in() {
    assert_eq!(request("/", "token=x", false, true).check_login(true), Ok(()));
}

#[test]
fn unknown_or_missing_token_is_redirected() {
    let expected = ServerResponse {
        status: Status::SeeOther,
        headers: vec![header("location", "/login")],
        body: String::new(),
    };
    assert_eq!(request("/", "token=x", false, true).check_login(false), Err(expected.clone()));
    assert_eq!(request("/", "", false, true).check_login(false), Err(expected.clone()));
    assert_eq!(request("/", "", false, true).check_login(true), Err(expected));
}

#[test]
fn script_calls_get_a_refresh_fragment() {
    let expected = plain(
        Status::Success,
        r#"<meta http-equiv="refresh" content="0; url=/login" />"#,
    );
    assert_eq!(request("/", "", true, true).check_login(false), Err(expected));
}

#[test]
fn body_can_be_taken_once() {
    let mut req = request("/", "", false, false);
    assert_eq!(req.extract_body(), Ok(7));
    assert_eq!(
        req.extract_body(),
        Err(plain(Status::InternalServerError, "form already extracted"))
    );
    assert_eq!(
        req.extract_body(),
        Err(plain(Status::InternalServerError, "form already extracted"))
    );
}

fn two_devices() -> Registry<String> {
    let mut registry = Registry::new();
    registry.register(DeviceInfo {
        address: Address::V4(2),
        nickname: "beta".to_string(),
        pending_update: Some("9.9".to_string()),
        handle: "handle-b".to_string(),
    });
    registry.register(DeviceInfo {
        address: Address::V4(1),
        nickname: "alpha".to_string(),
        pending_update: None,
        handle: "handle-a".to_string(),
    });
    registry
}

#[test]
fn no_backends_is_service_unavailable() {
    let registry: Registry<String> = Registry::new();
    let req = request("/", "", false, false);
    let err = req.extract_backends(&registry, None).err().unwrap();
    assert_eq!(err, plain(Status::ServiceUnavailable, "no connected backends"));
    let err = req.extract_backends(&registry, Some(Address::V4(1))).err().unwrap();
    assert_eq!(err.status.code(), 503);
}

#[test]
fn backend_defaults_to_the_first() {
    let registry = two_devices();
    let data = request("/", "", false, false).extract_backends(&registry, None).ok().unwrap();
    assert_eq!(
        data.backend_list,
        vec![(Address::V4(1), "alpha".to_string()), (Address::V4(2), "beta".to_string())]
    );
    assert_eq!(data.current_backend.addr, Address::V4(1));
    assert_eq!(data.current_backend.handle, "handle-a");
    assert_eq!(data.current_backend.update, None);
}

#[test]
fn preferred_backend_is_chosen_when_connected() {
    let registry = two_devices();
    let req = request("/", "backend=0.0.0.2", false, false);
    let data = req.extract_backends(&registry, Some(Address::V4(2))).ok().unwrap();
    assert_eq!(data.current_backend.addr, Address::V4(2));
    assert_eq!(data.current_backend.handle, "handle-b");
    assert_eq!(data.current_backend.update, Some("9.9".to_string()));
    let data = req.extract_backends(&registry, Some(Address::V6(2))).ok().unwrap();
    assert_eq!(data.current_backend.addr, Address::V4(1));
}

#[test]
fn failures_become_gateway_errors() {
    let reply = Response::NetIO(NetworkIo { sent: 1, recv: 2 });
    assert_eq!(backend_reply(Ok(reply.clone())), Ok(reply));
    assert_eq!(
        backend_reply(Err(ExchangeError::Unreachable)),
        Err(plain(Status::BadGateway, "backend request failed: device unreachable"))
    );
    assert_eq!(
        backend_reply(Err(ExchangeError::ProtocolViolation)),
        Err(plain(Status::BadGateway, "backend request failed: reply does not match its request"))
    );
    assert_eq!(
        backend_action_failed(),
        plain(Status::BadGateway, "backend action failed: device unreachable")
    );
}

#[test]
fn bad_input_becomes_bad_request() {
    assert_eq!(
        invalid_query("missing field `pid`"),
        plain(Status::BadRequest, "invalid query params: missing field `pid`")
    );
    assert_eq!(needs_body(), plain(Status::BadRequest, "needs body"));
    assert_eq!(invalid_form(), plain(Status::BadRequest, "invalid form body"));
}
