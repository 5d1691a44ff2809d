use std::sync::Arc;
use tide::cors::{DEFAULT_MAX_AGE, WILDCARD};
use tide::{
    Cors, CorsAction, HttpRequest, IntoResponse, Method, Origin, Request, Response, Service, Step,
};

const ALLOW_ORIGIN: &str = "example.com";
const ALLOW_METHODS: &str = "GET, POST, OPTIONS, DELETE";
const EXPOSE_HEADER: &str = "X-My-Custom-Header";

const ENDPOINT: &str = "/cors";

struct Hello;

type App = tide::Server<(), Hello, Cors>;

fn app() -> App {
    let mut app: App = tide::Server::new();
    app.at(ENDPOINT).get(Hello);
    app
}

fn drive(step: Step<'_, Hello, Cors, ()>) -> Response {
    match step {
        Step::Middleware(cors, req, next) => match cors.handle(req) {
            CorsAction::Respond(res) => res,
            CorsAction::Forward(req, origin) => {
                let res = drive(next.run(req));
                cors.finish(&origin, res)
            }
        },
        Step::Endpoint(_, _) => "Hello World".into_response(),
        Step::Respond(res) => res,
    }
}

fn call(app: &Service<(), Hello, Cors>, request: HttpRequest) -> Response {
    drive(app.call(Request::new(Arc::new(()), request, vec![])))
}

fn request() -> HttpRequest {
    HttpRequest::new(Method::Get, ENDPOINT).header("origin", ALLOW_ORIGIN)
}

#[test]
fn preflight_request() {
    let mut app = app();
    app.middleware(
        Cors::new()
            .allow_origin(Origin::from(ALLOW_ORIGIN))
            .allow_methods(ALLOW_METHODS)
            .expose_headers(EXPOSE_HEADER)
            .allow_credentials(true),
    );

    let app = app.into_http_service();

    let req = HttpRequest::new(Method::Options, ENDPOINT).header("origin", ALLOW_ORIGIN);
    let res = call(&app, req);

    assert_eq!(res.status(), 200);

    assert_eq!(
        res.headers().get("access-control-allow-origin").unwrap(),
        ALLOW_ORIGIN
    );
    assert_eq!(
        res.headers().get("access-control-allow-methods").unwrap(),
        ALLOW_METHODS
    );
    assert_eq!(
        res.headers().get("access-control-allow-headers").unwrap(),
        WILDCARD
    );
    assert_eq!(
        res.headers().get("access-control-max-age").unwrap(),
        DEFAULT_MAX_AGE
    );

    assert_eq!(
        res.headers().get("access-control-allow-credentials").unwrap(),
        "true"
    );
}

#[test]
fn preflight_request_does_not_reach_the_endpoint() {
    let mut app = app();
    app.middleware(Cors::new().expose_headers(EXPOSE_HEADER));
    let app = app.into_http_service();

    let req = HttpRequest::new(Method::Options, ENDPOINT).header("Origin", ALLOW_ORIGIN);
    let res = call(&app, req);

    assert_eq!(res.status(), 200);
    assert!(res.body.is_empty());
    assert_eq!(res.headers().get("content-type"), None);
    assert_eq!(res.headers().get("access-control-allow-origin"), Some("*"));
    assert_eq!(
        res.headers().get("access-control-allow-methods"),
        Some("GET, POST, OPTIONS")
    );
    assert_eq!(
        res.headers().get("access-control-expose-headers"),
        Some(EXPOSE_HEADER)
    );
    assert_eq!(res.headers().get("access-control-allow-credentials"), None);
    assert_eq!(res.headers().len(), 5);
}

#[test]
fn preflight_names_the_configured_origin() {
    let any = Cors::new();
    let req = |origin: &str| {
        Request::new(
            Arc::new(()),
            HttpRequest::new(Method::Options, ENDPOINT).header("origin", origin),
            vec![],
        )
    };
    match any.handle(req("example.com")) {
        CorsAction::Respond(res) => {
            assert_eq!(res.status(), 200);
            assert_eq!(res.headers().get("access-control-allow-origin"), Some("*"));
        }
        CorsAction::Forward(_, _) => panic!("a preflight request went on"),
    }
    let without = Request::new(
        Arc::new(()),
        HttpRequest::new(Method::Options, ENDPOINT),
        vec![],
    );
    match any.handle(without) {
        CorsAction::Respond(res) => {
            assert_eq!(res.headers().get("access-control-allow-origin"), Some("*"));
        }
        CorsAction::Forward(_, _) => panic!("a preflight request went on"),
    }
    let list = Cors::new().allow_origin(Origin::from(vec!["foo.com", "bar.com"]));
    match list.handle(req("bar.com")) {
        CorsAction::Respond(res) => {
            assert_eq!(
                res.headers().get("access-control-allow-origin"),
                Some("bar.com")
            );
        }
        CorsAction::Forward(_, _) => panic!("a preflight request went on"),
    }
}

#[test]
fn default_cors_middleware() {
    let mut app = app();
    app.middleware(Cors::new());

    let app = app.into_http_service();
    let res = call(&app, request());

    assert_eq!(res.status(), 200);

    assert_eq!(
        res.headers().get("access-control-allow-origin").unwrap(),
        "*"
    );
}

#[test]
fn default_is_new() {
    let cors = Cors::default();
    assert_eq!(cors.allow_headers, "*");
    assert_eq!(cors.allow_methods, "GET, POST, OPTIONS");
    assert_eq!(cors.max_age, "86400");
    assert!(cors.allow_credentials.is_none());
    assert!(cors.expose_headers.is_none());
    assert!(matches!(cors.allow_origin, Origin::Any));
}

#[test]
fn custom_cors_middleware() {
    let mut app = app();
    app.middleware(
        Cors::new()
            .allow_origin(Origin::from(ALLOW_ORIGIN))
            .allow_credentials(false)
            .allow_methods(ALLOW_METHODS)
            .expose_headers(EXPOSE_HEADER),
    );

    let app = app.into_http_service();
    let res = call(&app, request());

    assert_eq!(res.status(), 200);
    assert_eq!(
        res.headers().get("access-control-allow-origin").unwrap(),
        ALLOW_ORIGIN
    );
    assert_eq!(
        res.headers().get("access-control-allow-credentials"),
        Some("false")
    );
    assert_eq!(
        res.headers().get("access-control-expose-headers"),
        Some(EXPOSE_HEADER)
    );
    assert_eq!(res.body, b"Hello World".to_vec());
}

#[test]
fn credentials_true() {
    let mut app = app();
    app.middleware(Cors::new().allow_credentials(true));

    let app = app.into_http_service();
    let res = call(&app, request());

    assert_eq!(res.status(), 200);
    assert_eq!(
        res.headers().get("access-control-allow-credentials").unwrap(),
        "true"
    );
}

#[test]
fn set_allow_origin_list() {
    let mut app = app();
    let origins = vec![ALLOW_ORIGIN, "foo.com", "bar.com"];
    app.middleware(Cors::new().allow_origin(Origin::from(origins.clone())));
    let app = app.into_http_service();

    for origin in origins {
        let request = HttpRequest::new(Method::Get, ENDPOINT).header("origin", origin);
        let res = call(&app, request);

        assert_eq!(res.status(), 200);
        assert_eq!(
            res.headers().get("access-control-allow-origin").unwrap(),
            origin
        );
    }
}

#[test]
fn not_set_origin_header() {
    let mut app = app();
    app.middleware(Cors::new());

    let request = HttpRequest::new(Method::Get, ENDPOINT);

    let app = app.into_http_service();
    let res = call(&app, request);

    assert_eq!(res.status(), 200);
}

#[test]
fn unauthorized_origin() {
    let mut app = app();
    app.middleware(Cors::new().allow_origin(Origin::from(ALLOW_ORIGIN)));

    let request = HttpRequest::new(Method::Get, ENDPOINT).header("origin", "unauthorize-origin.net");

    let app = app.into_http_service();
    let res = call(&app, request);

    assert_eq!(res.status(), 401);
    assert!(res.body.is_empty());
    assert_eq!(res.headers().len(), 0);
}

#[test]
fn unauthorized_preflight() {
    let cors = Cors::new().allow_origin(Origin::from(vec!["foo.com", "bar.com"]));
    let req = Request::new(
        Arc::new(()),
        HttpRequest::new(Method::Options, ENDPOINT).header("origin", "baz.com"),
        vec![],
    );
    match cors.handle(req) {
        CorsAction::Respond(res) => assert_eq!(res.status(), 401),
        CorsAction::Forward(_, _) => panic!("a request from an origin off the list went on"),
    }
}

#[test]
fn origin_that_is_not_printable_is_refused() {
    let cors = Cors::new();
    assert!(cors.is_valid_origin("example.com"));
    assert!(cors.is_valid_origin(""));
    assert!(cors.is_valid_origin("a\tb"));
    assert!(!cors.is_valid_origin("ex\u{e4}mple.com"));
    assert!(!cors.is_valid_origin("a\nb"));
    assert!(!cors.is_valid_origin("a\u{7f}b"));
    assert_eq!(cors.response_origin("ex\u{e4}mple.com"), None);
}

#[test]
fn response_origin_by_policy() {
    assert_eq!(
        Cors::new().response_origin("example.com"),
        Some("*".to_string())
    );
    let exact = Cors::new().allow_origin(Origin::from("example.com"));
    assert_eq!(
        exact.response_origin("example.com"),
        Some("example.com".to_string())
    );
    assert_eq!(exact.response_origin("other.com"), None);
    let list = Cors::new().allow_origin(Origin::from(vec![
        "foo.com".to_string(),
        "bar.com".to_string(),
    ]));
    assert_eq!(list.response_origin("bar.com"), Some("bar.com".to_string()));
    assert_eq!(list.response_origin("baz.com"), None);
    assert!(!list.is_valid_origin("FOO.com"));
}

#[test]
fn origin_from_text_and_lists() {
    assert!(matches!(Origin::from("*"), Origin::Any));
    assert!(matches!(Origin::from("*".to_string()), Origin::Any));
    assert!(matches!(Origin::from("a.com"), Origin::Exact(s) if s == "a.com"));
    assert!(matches!(Origin::from(vec!["a.com"]), Origin::Exact(s) if s == "a.com"));
    assert!(matches!(Origin::from(vec!["*"]), Origin::Any));
    assert!(matches!(Origin::from(vec!["*".to_string()]), Origin::Any));
    assert!(
        matches!(Origin::from(vec!["a.com", "*"]), Origin::List(l) if l == vec!["a.com", "*"])
    );
    assert!(matches!(Origin::from(Vec::<String>::new()), Origin::List(l) if l.is_empty()));
}

#[test]
fn builders_set_one_field_each() {
    let cors = Cors::new()
        .allow_headers("X-One, X-Two")
        .max_age("600")
        .allow_methods("PUT");
    assert_eq!(cors.allow_headers, "X-One, X-Two");
    assert_eq!(cors.max_age, "600");
    assert_eq!(cors.allow_methods, "PUT");
    assert!(cors.allow_credentials.is_none());
    let res = cors.build_preflight_response("here.org");
    assert_eq!(res.status(), 200);
    assert_eq!(res.headers().len(), 4);
    assert_eq!(res.headers().entries[0].name, "access-control-allow-origin");
    assert_eq!(res.headers().entries[0].value, "here.org");
    assert_eq!(res.headers().entries[1].name, "access-control-allow-methods");
    assert_eq!(res.headers().entries[1].value, "PUT");
    assert_eq!(res.headers().entries[2].name, "access-control-allow-headers");
    assert_eq!(res.headers().entries[2].value, "X-One, X-Two");
    assert_eq!(res.headers().entries[3].name, "access-control-max-age");
    assert_eq!(res.headers().entries[3].value, "600");
}

#[test]
fn finish_adds_headers_after_those_of_the_response() {
    let cors = Cors::new()
        .allow_origin(Origin::from("a.com"))
        .allow_credentials(true)
        .expose_headers("X-Seen");
    let res = cors.finish("a.com", Response::new(201).set_header("X-Own", "1"));
    assert_eq!(res.status(), 201);
    let names: Vec<&str> = res.headers().entries.iter().map(|h| h.name.as_str()).collect();
    assert_eq!(
        names,
        vec![
            "X-Own",
            "access-control-allow-origin",
            "access-control-allow-credentials",
            "access-control-expose-headers"
        ]
    );
    assert_eq!(res.headers().get("access-control-allow-origin"), Some("a.com"));
    assert_eq!(res.headers().get("access-control-expose-headers"), Some("X-Seen"));
}
