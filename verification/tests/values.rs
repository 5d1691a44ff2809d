use std::sync::Arc;
use tide::request::Local;
use tide::text::{
    chars_equal, ends_with_char, eq_ignore_ascii_case, is_visible_ascii, starts_with_char,
    str_equal, substring, to_chars,
};
use tide::{
    Body, Error, HeaderMap, HttpRequest, IntoResponse, IoErrorKind, Method, Request, Response,
    ResultExt, StringError, TransportError, Uri, Version,
};

#[test]
fn text_helpers() {
    assert_eq!(to_chars("a\u{e9}b"), vec!['a', '\u{e9}', 'b']);
    assert!(to_chars("").is_empty());
    assert!(chars_equal(&['a', 'b'], &['a', 'b']));
    assert!(!chars_equal(&['a', 'b'], &['a', 'c']));
    assert!(!chars_equal(&['a'], &['a', 'b']));
    assert!(str_equal("abc", "abc"));
    assert!(!str_equal("abc", "abd"));
    assert!(!str_equal("abc", "ab"));
    assert!(str_equal("", ""));
    assert_eq!(substring("h\u{e9}llo", 1, 3), "\u{e9}l");
    assert_eq!(substring("hello", 2, 2), "");
    assert!(starts_with_char("/a", '/'));
    assert!(!starts_with_char("a/", '/'));
    assert!(!starts_with_char("", '/'));
    assert!(ends_with_char("a/", '/'));
    assert!(!ends_with_char("/a", '/'));
    assert!(!ends_with_char("", '/'));
    assert!(eq_ignore_ascii_case("Content-Type", "content-type"));
    assert!(eq_ignore_ascii_case("X-FOO", "x-foo"));
    assert!(!eq_ignore_ascii_case("X-Foo", "X-Fo"));
    assert!(!eq_ignore_ascii_case("a@", "a`"));
    assert!(!eq_ignore_ascii_case("\u{c4}", "\u{e4}"));
    assert!(!eq_ignore_ascii_case("[", "{"));
    assert!(is_visible_ascii("abc xyz~\t"));
    assert!(!is_visible_ascii("a\u{0}"));
    assert!(!is_visible_ascii("\u{80}"));
}

#[test]
fn uri_from_a_request_target() {
    let uri = Uri::parse("/a/b?x=1&y=2");
    assert_eq!(uri.path(), "/a/b");
    assert_eq!(uri.query(), Some("x=1&y=2"));
    assert_eq!(uri.scheme(), None);
    assert_eq!(uri.authority(), None);

    let uri = Uri::parse("/a/b");
    assert_eq!(uri.path(), "/a/b");
    assert_eq!(uri.query(), None);

    let uri = Uri::parse("/a?");
    assert_eq!(uri.path(), "/a");
    assert_eq!(uri.query(), Some(""));

    let uri = Uri::parse("?q=a?b");
    assert_eq!(uri.path(), "");
    assert_eq!(uri.query(), Some("q=a?b"));

    let uri = Uri::parse("");
    assert_eq!(uri.path(), "");
    assert_eq!(uri.query(), None);
}

#[test]
fn header_map() {
    let mut headers = HeaderMap::new();
    assert_eq!(headers.len(), 0);
    assert_eq!(headers.get("a"), None);
    headers.append("Set-Cookie", "C1=V1");
    headers.append("X-Other", "o");
    headers.append("set-cookie", "C2=V2");
    assert_eq!(headers.len(), 3);
    assert_eq!(headers.get("SET-COOKIE"), Some("C1=V1"));
    assert_eq!(headers.get_all("Set-Cookie"), vec!["C1=V1", "C2=V2"]);
    assert_eq!(headers.get_all("x-other"), vec!["o"]);
    assert!(headers.get_all("none").is_empty());

    headers.insert("Set-cookie", "C3=V3");
    assert_eq!(headers.len(), 2);
    assert_eq!(headers.get_all("set-cookie"), vec!["C3=V3"]);
    assert_eq!(headers.entries[0].name, "X-Other");
    assert_eq!(headers.entries[1].name, "Set-cookie");

    headers.insert("X-New", "n");
    assert_eq!(headers.len(), 3);
    assert_eq!(headers.get("x-new"), Some("n"));
}

#[test]
fn response_builders() {
    let res = Response::new(404);
    assert_eq!(res.status(), 404);
    assert_eq!(res.headers().len(), 0);
    assert!(res.body.is_empty());
    assert_eq!(res.cause(), None);

    let mut res = Response::new(200)
        .set_header("X-A", "1")
        .append_header("X-A", "2")
        .set_header("X-B", "3")
        .body_string("h\u{e9}".to_string())
        .set_status(201)
        .with_cause("why".to_string());
    assert_eq!(res.status(), 201);
    assert_eq!(res.headers().get_all("x-a"), vec!["1", "2"]);
    assert_eq!(res.header("X-B"), Some("3"));
    assert_eq!(res.header("X-C"), None);
    assert_eq!(res.cause(), Some("why"));
    assert_eq!(res.body, vec![b'h', 0xc3, 0xa9]);
    assert_eq!(res.take_body(), vec![b'h', 0xc3, 0xa9]);
    assert!(res.take_body().is_empty());
    assert_eq!(res.status(), 201);

    let res = Response::new(200).set_header("X-A", "1").set_header("x-a", "2");
    assert_eq!(res.headers().get_all("X-A"), vec!["2"]);
    let res = res.body(vec![1, 2, 3]);
    assert_eq!(res.body, vec![1, 2, 3]);
}

#[test]
fn into_response() {
    let res = "Hello".into_response();
    assert_eq!(res.status(), 200);
    assert_eq!(res.header("content-type"), Some("text/plain; charset=utf-8"));
    assert_eq!(res.headers().len(), 1);
    assert_eq!(res.body, b"Hello".to_vec());

    let res = "Hello".to_string().into_response();
    assert_eq!(res.status(), 200);
    assert_eq!(res.header("Content-Type"), Some("text/plain; charset=utf-8"));
    assert_eq!(res.body, b"Hello".to_vec());

    let res = Response::new(204).set_header("X-A", "1").into_response();
    assert_eq!(res.status(), 204);
    assert_eq!(res.header("X-A"), Some("1"));

    let res = "Hello, 404!".with_status(404).into_response();
    assert_eq!(res.status(), 404);
    assert_eq!(res.body, b"Hello, 404!".to_vec());
    assert_eq!(res.header("Content-Type"), Some("text/plain; charset=utf-8"));

    let req = Request::new(
        Arc::new(()),
        HttpRequest::new(Method::Post, "/echo").body(b"payload".to_vec()),
        vec![],
    );
    let res = req.into_response();
    assert_eq!(res.status(), 200);
    assert_eq!(res.body, b"payload".to_vec());
    assert_eq!(res.headers().len(), 0);

    let res = Error::from(418u16).into_response();
    assert_eq!(res.status(), 418);
    assert!(res.body.is_empty());

    assert!("text".is_response());
    assert!("text".to_string().is_response());
    assert!(Response::new(200).is_response());
    assert!(Error::from(500u16).is_response());
    assert!(Error::from(500u16).with_status(404).is_response());
    assert!(!Error::invalid_data().is_response());
    assert!(!Error::from(TransportError { message: "lost".to_string() }).is_response());
    assert!(!Error::invalid_data().with_status(404).is_response());
}

#[test]
fn errors() {
    match Error::from(Response::new(403)) {
        Error::Response(res) => assert_eq!(res.status(), 403),
        _ => panic!("not a response"),
    }
    match Error::from(TransportError { message: "reset".to_string() }) {
        Error::Hyper(e) => assert_eq!(e.message, "reset"),
        _ => panic!("not a transport error"),
    }
    match Error::from(tide::IoError { kind: IoErrorKind::Other, message: "m".to_string() }) {
        Error::IO(e) => {
            assert_eq!(e.kind, IoErrorKind::Other);
            assert_eq!(e.message, "m");
        }
        _ => panic!("not an error of reading"),
    }
    match Error::bad_request("no good".to_string()) {
        Error::Response(res) => {
            assert_eq!(res.status(), 400);
            assert_eq!(res.body, b"no good".to_vec());
            assert_eq!(res.headers().len(), 0);
        }
        _ => panic!("not a response"),
    }
    match Error::form("bad pair".to_string()) {
        Error::IO(e) => {
            assert_eq!(e.kind, IoErrorKind::Other);
            assert_eq!(e.message, "could not decode form: bad pair");
        }
        _ => panic!("not an error of reading"),
    }
    match Error::invalid_data() {
        Error::IO(e) => {
            assert_eq!(e.kind, IoErrorKind::InvalidData);
            assert_eq!(e.message, "");
        }
        _ => panic!("not an error of reading"),
    }
    assert_eq!(StringError("text".to_string()).message(), "text");
}

#[test]
fn result_ext() {
    let ok: Result<u8, StringError> = Ok(3);
    assert!(matches!(ok.client_err(), Ok(3)));

    let err: Result<u8, StringError> = Err(StringError("bad input".to_string()));
    match err.client_err() {
        Err(Error::Response(res)) => {
            assert_eq!(res.status(), 400);
            assert_eq!(res.cause(), Some("bad input"));
            assert!(res.body.is_empty());
            assert_eq!(res.headers().len(), 0);
        }
        _ => panic!("not a response"),
    }

    let err: Result<u8, StringError> = Err(StringError("broken".to_string()));
    match err.server_err() {
        Err(Error::Response(res)) => {
            assert_eq!(res.status(), 500);
            assert_eq!(res.cause(), Some("broken"));
        }
        _ => panic!("not a response"),
    }

    let err: Result<u8, StringError> = Err(StringError("gone".to_string()));
    match err.with_err_status(410) {
        Err(Error::Response(res)) => {
            assert_eq!(res.status(), 410);
            assert_eq!(res.cause(), Some("gone"));
        }
        _ => panic!("not a response"),
    }
}

fn request(body: Body) -> Request<&'static str> {
    let mut http = HttpRequest::new(Method::Post, "/submit?a=1")
        .header("Content-Type", "text/plain")
        .header("X-Forwarded-For", "127.0.0.1");
    http.body = body;
    Request::new(Arc::new("state"), http, vec![])
}

#[test]
fn request_getters() {
    let req = request(Body::empty());
    assert_eq!(*req.method(), Method::Post);
    assert_eq!(req.uri().path(), "/submit");
    assert_eq!(req.uri().query(), Some("a=1"));
    assert_eq!(req.version(), Version::Http11);
    assert_eq!(req.headers().len(), 2);
    assert_eq!(req.header("X-Forwarded-For"), Some("127.0.0.1"));
    assert_eq!(req.header("x-forwarded-for"), Some("127.0.0.1"));
    assert_eq!(req.header("X-Missing"), None);
    assert_eq!(*req.state(), "state");
    assert_eq!(req.query_text(), "a=1");
    assert_eq!(req.rest(), None);
    assert_eq!(req.find_param("id"), None);
}

#[test]
fn request_locals() {
    let req = request(Body::empty());
    assert_eq!(req.local("user"), None);
    let req = req.set_local("user", b"ann".to_vec());
    let req = req.set_local("role", b"admin".to_vec());
    assert_eq!(req.local("user"), Some(&b"ann".to_vec()));
    assert_eq!(req.local("role"), Some(&b"admin".to_vec()));
    assert_eq!(req.local("User"), None);
    let req = req.set_local("user", b"bob".to_vec());
    assert_eq!(req.local("user"), Some(&b"bob".to_vec()));
    assert_eq!(req.local("role"), Some(&b"admin".to_vec()));
    assert_eq!(req.header("content-type"), Some("text/plain"));
    let first: &Local = &req.request.extensions.locals[0];
    assert_eq!(first.key, "user");
}

#[test]
fn request_params_innermost_first() {
    let mut outer = route_recognizer::Params::new();
    outer.insert("id".to_string(), "outer".to_string());
    outer.insert("org".to_string(), "acme".to_string());
    outer.insert("--tide-path-rest".to_string(), "users/7".to_string());
    let mut inner = route_recognizer::Params::new();
    inner.insert("id".to_string(), "7".to_string());
    let req = Request::new(
        Arc::new(()),
        HttpRequest::new(Method::Get, "/users/7"),
        vec![outer, inner],
    );
    assert_eq!(req.param("id"), "7");
    assert_eq!(req.param("org"), "acme");
    assert_eq!(req.find_param("id"), Some("7"));
    assert_eq!(req.find_param("none"), None);
    assert_eq!(req.find_param("--tide-path-rest"), Some("users/7"));
    // only the innermost match says what stands behind a prefix
    assert_eq!(req.rest(), None);

    let mut last = route_recognizer::Params::new();
    last.insert("--tide-path-rest".to_string(), "a/b".to_string());
    let req = Request::new(Arc::new(()), HttpRequest::new(Method::Get, "/x/a/b"), vec![last]);
    assert_eq!(req.rest(), Some("a/b"));
}

#[test]
fn body_is_read_once() {
    let mut req = request(Body::Bytes(b"hello".to_vec()));
    match req.body_bytes() {
        Ok(bytes) => assert_eq!(bytes, b"hello".to_vec()),
        Err(_) => panic!("the body was not read"),
    }
    match req.body_bytes() {
        Ok(bytes) => assert!(bytes.is_empty()),
        Err(_) => panic!("the body was not read"),
    }
    assert_eq!(req.header("content-type"), Some("text/plain"));

    let mut req = request(Body::Bytes(b"raw".to_vec()));
    assert_eq!(req.body_raw().into_bytes(), b"raw".to_vec());
    assert!(req.body_raw().into_bytes().is_empty());
}

#[test]
fn body_as_text() {
    let mut req = request(Body::Bytes("gr\u{fc}\u{df}e".as_bytes().to_vec()));
    match req.body_string() {
        Ok(text) => assert_eq!(text, "gr\u{fc}\u{df}e"),
        Err(_) => panic!("the body was not read"),
    }
    match req.body_string() {
        Ok(text) => assert_eq!(text, ""),
        Err(_) => panic!("the body was not read"),
    }

    let mut req = request(Body::Bytes(vec![b'a', 0xff, b'b']));
    match req.body_string() {
        Err(Error::IO(e)) => assert_eq!(e.kind, IoErrorKind::InvalidData),
        _ => panic!("bytes that are not UTF-8 were read as text"),
    }
    match req.body_bytes() {
        Ok(bytes) => assert!(bytes.is_empty()),
        Err(_) => panic!("the body was not read"),
    }
}

#[test]
fn body_that_the_transport_lost() {
    let failed = || Body::Failed(TransportError { message: "connection reset".to_string() });
    let mut req = request(failed());
    match req.body_bytes() {
        Err(Error::Hyper(e)) => assert_eq!(e.message, "connection reset"),
        _ => panic!("a lost body was read"),
    }
    match req.body_bytes() {
        Ok(bytes) => assert!(bytes.is_empty()),
        Err(_) => panic!("the body was not read"),
    }
    let mut req = request(failed());
    assert!(matches!(req.body_string(), Err(Error::Hyper(_))));
    let mut req = request(failed());
    assert!(matches!(req.body_json::<Vec<u8>>(), Err(Error::Hyper(_))));
    let mut req = request(failed());
    assert!(matches!(
        req.body_form::<std::collections::BTreeMap<String, String>>(),
        Err(Error::Hyper(_))
    ));
    assert!(failed().into_bytes().is_empty());
}

#[test]
fn body_as_json() {
    let mut req = request(Body::Bytes(b"[1, 2, 3]".to_vec()));
    match req.body_json::<Vec<u32>>() {
        Ok(numbers) => assert_eq!(numbers, vec![1, 2, 3]),
        Err(_) => panic!("the body did not decode"),
    }
    let mut req = request(Body::Bytes(b"{\"a\": \"b\"}".to_vec()));
    match req.body_json::<std::collections::BTreeMap<String, String>>() {
        Ok(map) => assert_eq!(map.get("a").map(|s| s.as_str()), Some("b")),
        Err(_) => panic!("the body did not decode"),
    }
    let mut req = request(Body::Bytes(b"[1, 2".to_vec()));
    match req.body_json::<Vec<u32>>() {
        Err(Error::IO(e)) => assert_eq!(e.kind, IoErrorKind::InvalidData),
        _ => panic!("broken JSON was decoded"),
    }
    match req.body_bytes() {
        Ok(bytes) => assert!(bytes.is_empty()),
        Err(_) => panic!("the body was not read"),
    }
}

#[test]
fn body_as_form() {
    let mut req = request(Body::Bytes(b"name=Ann&city=New%20York".to_vec()));
    match req.body_form::<std::collections::BTreeMap<String, String>>() {
        Ok(map) => {
            assert_eq!(map.get("name").map(|s| s.as_str()), Some("Ann"));
            assert_eq!(map.get("city").map(|s| s.as_str()), Some("New York"));
            assert_eq!(map.len(), 2);
        }
        Err(_) => panic!("the form did not decode"),
    }
    let mut req = request(Body::Bytes(b"name=Ann".to_vec()));
    match req.body_form::<u32>() {
        Err(Error::IO(e)) => {
            assert_eq!(e.kind, IoErrorKind::Other);
            assert!(e.message.starts_with("could not decode form: "));
            assert!(e.message.len() > "could not decode form: ".len());
        }
        _ => panic!("a form was decoded as a number"),
    }
}
