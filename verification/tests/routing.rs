use std::sync::Arc;
use tide::pattern::{Pattern, Segment};
use tide::router::Router;
use tide::{HttpRequest, Method, Request, Service, Step};

fn kinds(pattern: &Pattern) -> Vec<String> {
    pattern
        .segments
        .iter()
        .map(|s| match s {
            Segment::Literal(text) => format!("lit:{}", text.iter().collect::<String>()),
            Segment::Capture(name) => format!("cap:{}", name),
            Segment::Rest(name) => format!("rest:{}", name),
        })
        .collect()
}

#[test]
fn pattern_syntax() {
    assert_eq!(
        kinds(&Pattern::parse("/literal/:capture/*rest")),
        vec!["lit:literal", "cap:capture", "rest:rest"]
    );
    assert_eq!(kinds(&Pattern::parse("/")), vec!["lit:"]);
    assert_eq!(kinds(&Pattern::parse("")), vec!["lit:"]);
    assert_eq!(kinds(&Pattern::parse("a/b")), vec!["lit:a", "lit:b"]);
    assert_eq!(kinds(&Pattern::parse("/a/")), vec!["lit:a", "lit:"]);
    assert_eq!(kinds(&Pattern::parse("//a")), vec!["lit:", "lit:a"]);
    assert_eq!(kinds(&Pattern::parse("/:")), vec!["cap:"]);
    assert_eq!(kinds(&Pattern::parse("/a:b/x*y")), vec!["lit:a:b", "lit:x*y"]);
    assert_eq!(
        kinds(&Pattern::parse("/foo/*--tide-path-rest")),
        vec!["lit:foo", "rest:--tide-path-rest"]
    );
}

#[test]
fn pattern_matching() {
    let literal = Pattern::parse("/posts/new");
    assert!(literal.matches("posts/new"));
    assert!(literal.matches("/posts/new"));
    assert!(!literal.matches("posts/New"));
    assert!(!literal.matches("posts"));
    assert!(!literal.matches("posts/new/"));
    assert!(!literal.matches("posts/new/x"));

    let capture = Pattern::parse("/posts/:id");
    assert!(capture.matches("posts/1"));
    assert!(capture.matches("posts/new"));
    assert!(!capture.matches("posts/"));
    assert!(!capture.matches("posts/1/2"));

    let rest = Pattern::parse("/files/*path");
    assert!(rest.matches("files/a"));
    assert!(rest.matches("files/a/b/c"));
    assert!(rest.matches("files//"));
    assert!(!rest.matches("files/"));
    assert!(!rest.matches("files"));

    let root = Pattern::parse("/");
    assert!(root.matches("/"));
    assert!(root.matches(""));
    assert!(!root.matches("/a"));

    let all = Pattern::parse("*all");
    assert!(all.matches("a/b"));
    assert!(all.matches("/a/b"));
    assert!(!all.matches(""));
    assert!(!all.matches("/"));
    assert!(all.capture("/").is_none());
    assert!(Pattern::parse("/a/:b").capture("/a").is_none());
}

#[test]
fn pattern_captures() {
    let pattern = Pattern::parse("/posts/:post_id/comments/:id");
    let path = "/posts/12/comments/100";
    let params = pattern.capture(path).unwrap();
    assert_eq!(params.find("post_id"), Some("12"));
    assert_eq!(params.find("id"), Some("100"));
    assert_eq!(params.find("comments"), None);
    assert_eq!(params.iter().count(), 2);

    let pattern = Pattern::parse("/files/:owner/*path");
    let path = "/files/ann/docs/a.txt";
    let params = pattern.capture(path).unwrap();
    assert_eq!(params.find("owner"), Some("ann"));
    assert_eq!(params.find("path"), Some("docs/a.txt"));

    let pattern = Pattern::parse("/:x/:x");
    let path = "/one/two";
    let params = pattern.capture(path).unwrap();
    assert_eq!(params.find("x"), Some("two"));
    assert_eq!(params.iter().count(), 1);

    let pattern = Pattern::parse("/caf\u{e9}/:name");
    let path = "/caf\u{e9}/\u{e4}nn";
    assert!(pattern.matches(path));
    let params = pattern.capture(path).unwrap();
    assert_eq!(params.find("name"), Some("\u{e4}nn"));
}

#[test]
fn pattern_precedence() {
    let literal = Pattern::parse("/posts/new");
    let capture = Pattern::parse("/posts/:id");
    let rest = Pattern::parse("/posts/*rest");
    let early = Pattern::parse("/:a/new");
    assert!(literal.outranks(&capture));
    assert!(!capture.outranks(&literal));
    assert!(capture.outranks(&rest));
    assert!(literal.outranks(&rest));
    assert!(!rest.outranks(&capture));
    assert!(!literal.outranks(&literal));
    assert!(!capture.outranks(&Pattern::parse("/posts/:other")));
    assert!(capture.outranks(&early));
    assert!(!early.outranks(&capture));
}

#[test]
fn router_prefers_the_literal() {
    let mut router: Router<&'static str> = Router::new();
    router.add("/posts/:id", Method::Get, "id");
    router.add("/posts/new", Method::Get, "new");
    router.add("/posts/*rest", Method::Get, "rest");

    let found = router.route("/posts/new", Method::Get);
    assert_eq!(found.endpoint, Some(&"new"));
    assert_eq!(found.params.iter().count(), 0);

    let found = router.route("/posts/1", Method::Get);
    assert_eq!(found.endpoint, Some(&"id"));
    assert_eq!(found.params.find("id"), Some("1"));

    let found = router.route("/posts/1/comments", Method::Get);
    assert_eq!(found.endpoint, Some(&"rest"));
    assert_eq!(found.params.find("rest"), Some("1/comments"));
    assert_eq!(found.params.find("id"), None);
}

#[test]
fn router_prefers_the_literal_whatever_the_order() {
    let mut router: Router<&'static str> = Router::new();
    router.add("/posts/new", Method::Get, "new");
    router.add("/posts/:id", Method::Get, "id");
    assert_eq!(router.route("/posts/new", Method::Get).endpoint, Some(&"new"));
    assert_eq!(router.route("/posts/7", Method::Get).endpoint, Some(&"id"));

    let mut router: Router<&'static str> = Router::new();
    router.add("/:a/b", Method::Get, "late literal");
    router.add("/a/:b", Method::Get, "early literal");
    assert_eq!(
        router.route("/a/b", Method::Get).endpoint,
        Some(&"early literal")
    );
}

#[test]
fn router_replaces_a_route_registered_again() {
    let mut router: Router<u8> = Router::new();
    router.add("/users/:id", Method::Get, 1);
    router.add("/users/:name", Method::Get, 2);
    let found = router.route("/users/ann", Method::Get);
    assert_eq!(found.endpoint, Some(&2));
    assert_eq!(found.params.find("name"), Some("ann"));
    assert_eq!(found.params.find("id"), None);
}

#[test]
fn router_misses() {
    let mut router: Router<u8> = Router::new();
    let found = router.route("/", Method::Get);
    assert!(found.endpoint.is_none());
    assert_eq!(found.params.iter().count(), 0);

    router.add("/a", Method::Get, 1);
    assert!(router.route("/b", Method::Get).endpoint.is_none());
    assert!(router.route("/a/b", Method::Get).endpoint.is_none());
    assert!(router.route("/A", Method::Get).endpoint.is_none());
    assert!(router.route("/a", Method::Post).endpoint.is_none());
    assert_eq!(router.route("/a", Method::Get).endpoint, Some(&1));
    assert_eq!(router.route("a", Method::Get).endpoint, Some(&1));
}

#[test]
fn router_falls_back_to_all_methods() {
    let mut router: Router<&'static str> = Router::new();
    router.add_all("/a", "all");
    router.add_all("/:x", "all capture");
    router.add("/:x", Method::Post, "post capture");

    for method in [
        Method::Get,
        Method::Head,
        Method::Put,
        Method::Delete,
        Method::Connect,
        Method::Options,
        Method::Trace,
        Method::Patch,
    ] {
        assert_eq!(router.route("/a", method).endpoint, Some(&"all"));
        assert_eq!(router.route("/b", method).endpoint, Some(&"all capture"));
    }
    // the method's own routes are tried first, also where a fallback route
    // is the more specific one
    assert_eq!(
        router.route("/a", Method::Post).endpoint,
        Some(&"post capture")
    );
}

#[test]
fn router_keeps_methods_apart() {
    let mut router: Router<Method> = Router::new();
    let methods = [
        Method::Get,
        Method::Head,
        Method::Post,
        Method::Put,
        Method::Delete,
        Method::Connect,
        Method::Options,
        Method::Trace,
        Method::Patch,
    ];
    for method in methods {
        router.add("/m", method, method);
    }
    for method in methods {
        assert_eq!(router.route("/m", method).endpoint, Some(&method));
    }
    assert_eq!(router.get.entries.len(), 1);
    assert_eq!(router.all.entries.len(), 0);
}

#[test]
fn method_names() {
    assert_eq!(Method::Get.as_str(), "GET");
    assert_eq!(Method::Head.as_str(), "HEAD");
    assert_eq!(Method::Post.as_str(), "POST");
    assert_eq!(Method::Put.as_str(), "PUT");
    assert_eq!(Method::Delete.as_str(), "DELETE");
    assert_eq!(Method::Connect.as_str(), "CONNECT");
    assert_eq!(Method::Options.as_str(), "OPTIONS");
    assert_eq!(Method::Trace.as_str(), "TRACE");
    assert_eq!(Method::Patch.as_str(), "PATCH");
}

type App = tide::Server<u32, &'static str, &'static str>;

fn steps(app: &Service<u32, &'static str, &'static str>, method: Method, target: &str) -> Vec<String> {
    let req = Request::new(Arc::new(()), HttpRequest::new(method, target), vec![]);
    let mut seen = Vec::new();
    let mut step = app.call(req);
    loop {
        match step {
            Step::Middleware(m, req, next) => {
                seen.push(format!("mw:{}", m));
                step = next.run(req);
            }
            Step::Endpoint(e, req) => {
                seen.push(format!("ep:{}:{}", e, req.uri().path()));
                return seen;
            }
            Step::Respond(res) => {
                seen.push(format!("status:{}", res.status()));
                return seen;
            }
        }
    }
}

#[test]
fn chain_runs_application_middleware_first_and_in_order() {
    let mut app: App = tide::with_state(7);
    app.middleware("a").middleware("b");
    app.at("/x").middleware("c").middleware("d").get("x");
    app.at("/y").get("y");
    let app = app.into_http_service();

    assert_eq!(
        steps(&app, Method::Get, "/x"),
        vec!["mw:a", "mw:b", "mw:c", "mw:d", "ep:x:/x"]
    );
    assert_eq!(steps(&app, Method::Get, "/y"), vec!["mw:a", "mw:b", "ep:y:/y"]);
}

#[test]
fn not_found_runs_application_middleware_and_answers_404() {
    let mut app: App = tide::with_state(7);
    app.middleware("a");
    app.at("/x").middleware("c").get("x");
    let app = app.into_http_service();

    assert_eq!(
        steps(&app, Method::Get, "/nowhere"),
        vec!["mw:a", "status:404"]
    );
    assert_eq!(steps(&app, Method::Post, "/x"), vec!["mw:a", "status:404"]);

    let empty: App = tide::with_state(0);
    let empty = empty.into_http_service();
    assert_eq!(steps(&empty, Method::Get, "/"), vec!["status:404"]);
}

#[test]
fn service_hands_on_state_and_parameters() {
    let mut app: App = tide::with_state(7);
    app.at("/users/:id").get("user");
    let app = app.into_http_service();

    let mut outer = route_recognizer::Params::new();
    outer.insert("tenant".to_string(), "acme".to_string());
    outer.insert("id".to_string(), "outer".to_string());
    let req = Request::new(
        Arc::new("outer state"),
        HttpRequest::new(Method::Get, "/users/42?full=1").header("X-One", "1"),
        vec![outer],
    );
    match app.call(req) {
        Step::Endpoint(endpoint, req) => {
            assert_eq!(*endpoint, "user");
            assert_eq!(*req.state(), 7);
            assert_eq!(req.route_params.len(), 2);
            assert_eq!(req.param("id"), "42");
            assert_eq!(req.param("tenant"), "acme");
            assert_eq!(req.find_param("other"), None);
            assert_eq!(req.rest(), None);
            assert_eq!(req.uri().path(), "/users/42");
            assert_eq!(req.uri().query(), Some("full=1"));
            assert_eq!(req.header("x-one"), Some("1"));
        }
        _ => panic!("the route was not found"),
    }
}

#[test]
fn strip_prefix_registers_the_path_and_all_below_it() {
    let mut app: App = tide::with_state(0);
    app.at("/static").strip_prefix().middleware("m").get("files");
    assert_eq!(app.router.get.entries.len(), 2);
    assert_eq!(
        kinds(&app.router.get.entries[0].pattern),
        vec!["lit:static"]
    );
    assert_eq!(
        kinds(&app.router.get.entries[1].pattern),
        vec!["lit:static", "rest:--tide-path-rest"]
    );
    let app = app.into_http_service();

    assert_eq!(
        steps(&app, Method::Get, "/static"),
        vec!["mw:m", "ep:files:/"]
    );
    assert_eq!(
        steps(&app, Method::Get, "/static/css/site.css"),
        vec!["mw:m", "ep:files:/css/site.css"]
    );
    assert_eq!(steps(&app, Method::Get, "/static/"), vec!["status:404"]);
    assert_eq!(steps(&app, Method::Get, "/statically"), vec!["status:404"]);
}

#[test]
fn strip_prefix_keeps_the_rest_of_the_address() {
    let mut app: App = tide::with_state(0);
    app.at("/api/:version").strip_prefix().all("api");
    let app = app.into_http_service();

    let mut request = HttpRequest::new(Method::Delete, "/api/v2/users/7?soft=true");
    request.uri.scheme = Some("https".to_string());
    request.uri.authority = Some("example.com".to_string());
    let req = Request::new(Arc::new(()), request, vec![]);
    match app.call(req) {
        Step::Endpoint(endpoint, req) => {
            assert_eq!(*endpoint, "api");
            assert_eq!(req.uri().path(), "/users/7");
            assert_eq!(req.uri().query(), Some("soft=true"));
            assert_eq!(req.uri().scheme(), Some("https"));
            assert_eq!(req.uri().authority(), Some("example.com"));
            assert_eq!(req.param("version"), "v2");
            assert_eq!(req.rest(), Some("users/7"));
            assert_eq!(*req.method(), Method::Delete);
        }
        _ => panic!("the route was not found"),
    }
}

#[test]
fn the_two_routes_of_a_prefix_share_one_endpoint() {
    let mut app: tide::Server<(), String, ()> = tide::new();
    app.at("/mount").strip_prefix().get("the endpoint".to_string());
    let first = match &app.router.get.entries[0].handler {
        tide::endpoint::RouteEndpoint::Prefix(p) => p.0.clone(),
        _ => panic!("the endpoint is not behind its prefix"),
    };
    let second = match &app.router.get.entries[1].handler {
        tide::endpoint::RouteEndpoint::Prefix(p) => p.0.clone(),
        _ => panic!("the endpoint is not behind its prefix"),
    };
    assert!(Arc::ptr_eq(&first, &second));
    assert_eq!(*first, "the endpoint");
}

#[test]
fn paths_are_joined_by_one_slash() {
    let mut app: App = tide::with_state(0);
    assert_eq!(app.at("/a").at("/b").path, "/a/b");
    assert_eq!(app.at("/a").at("b").path, "/a/b");
    assert_eq!(app.at("/a/").at("b").path, "/a/b");
    assert_eq!(app.at("/a/").at("/b").path, "/a/b");
    assert_eq!(app.at("/a").at("/").path, "/a");
    assert_eq!(app.at("/a/").at("/").path, "/a/");
    assert_eq!(app.at("").at("b").path, "/b");
    assert_eq!(app.at("/").at("b").path, "/b");
    assert_eq!(app.at("/").at("/").path, "/");
    assert_eq!(app.at("/a").at("").path, "/a/");
    assert_eq!(app.at("/a").at("b").at("c/d").path, "/a/b/c/d");
}

#[test]
fn child_builder_starts_with_a_copy_of_the_middleware() {
    let mut app: App = tide::with_state(0);
    let mut parent = app.at("/p");
    parent.middleware("one").strip_prefix();
    {
        let mut child = parent.at("/c");
        assert!(!child.prefix);
        assert_eq!(child.middleware.len(), 1);
        child.middleware("two");
        child.get("child");
    }
    assert_eq!(parent.middleware.len(), 1);
    assert!(parent.prefix);
    parent.get("parent");
    let app = app.into_http_service();

    assert_eq!(
        steps(&app, Method::Get, "/p/c"),
        vec!["mw:one", "mw:two", "ep:child:/p/c"]
    );
    assert_eq!(steps(&app, Method::Get, "/p"), vec!["mw:one", "ep:parent:/"]);
    assert_eq!(
        steps(&app, Method::Get, "/p/d"),
        vec!["mw:one", "ep:parent:/d"]
    );
}

#[test]
fn reset_middleware_leaves_registered_endpoints_as_they_are() {
    let mut app: App = tide::with_state(0);
    let mut route = app.at("/r");
    route.middleware("m").get("before");
    route.reset_middleware();
    route.post("after");
    route.middleware("n").put("later");
    let app = app.into_http_service();

    assert_eq!(steps(&app, Method::Get, "/r"), vec!["mw:m", "ep:before:/r"]);
    assert_eq!(steps(&app, Method::Post, "/r"), vec!["ep:after:/r"]);
    assert_eq!(steps(&app, Method::Put, "/r"), vec!["mw:n", "ep:later:/r"]);
}

#[test]
fn every_method_has_its_builder() {
    let mut app: App = tide::with_state(0);
    app.at("/m")
        .get("get")
        .head("head")
        .put("put")
        .post("post")
        .delete("delete")
        .options("options")
        .connect("connect")
        .patch("patch")
        .trace("trace");
    app.at("/m/n").method(Method::Patch, "by name").all("any");
    let app = app.into_http_service();

    for (method, name) in [
        (Method::Get, "get"),
        (Method::Head, "head"),
        (Method::Put, "put"),
        (Method::Post, "post"),
        (Method::Delete, "delete"),
        (Method::Options, "options"),
        (Method::Connect, "connect"),
        (Method::Patch, "patch"),
        (Method::Trace, "trace"),
    ] {
        assert_eq!(steps(&app, method, "/m"), vec![format!("ep:{}:/m", name)]);
    }
    assert_eq!(steps(&app, Method::Patch, "/m/n"), vec!["ep:by name:/m/n"]);
    assert_eq!(steps(&app, Method::Get, "/m/n"), vec!["ep:any:/m/n"]);
}

#[test]
fn nest_answers_every_method_and_leaves_prefix_mode() {
    let mut app: App = tide::with_state(0);
    {
        let mut route = app.at("/inner");
        route.middleware("guard").nest("inner app");
        assert!(!route.prefix);
        route.get("exact");
    }
    assert_eq!(app.router.all.entries.len(), 2);
    assert_eq!(app.router.get.entries.len(), 1);
    let app = app.into_http_service();

    assert_eq!(
        steps(&app, Method::Post, "/inner/a/b"),
        vec!["mw:guard", "ep:inner app:/a/b"]
    );
    assert_eq!(
        steps(&app, Method::Post, "/inner"),
        vec!["mw:guard", "ep:inner app:/"]
    );
    assert_eq!(
        steps(&app, Method::Get, "/inner"),
        vec!["mw:guard", "ep:exact:/inner"]
    );
    assert_eq!(
        steps(&app, Method::Get, "/inner/a"),
        vec!["mw:guard", "ep:inner app:/a"]
    );
}

#[test]
fn an_explicit_route_below_a_prefix_takes_the_request() {
    let mut app: App = tide::with_state(0);
    app.at("/bar").strip_prefix().get("mount");
    app.at("/bar/baz").get("explicit");
    let app = app.into_http_service();

    assert_eq!(steps(&app, Method::Get, "/bar/baz"), vec!["ep:explicit:/bar/baz"]);
    assert_eq!(steps(&app, Method::Get, "/bar/other"), vec!["ep:mount:/other"]);
}

#[test]
fn prefix_at_the_root() {
    let mut app: App = tide::with_state(0);
    app.at("/").strip_prefix().get("root");
    let app = app.into_http_service();

    assert_eq!(steps(&app, Method::Get, "/"), vec!["ep:root:/"]);
    assert_eq!(steps(&app, Method::Get, "/a/b"), vec!["ep:root:/a/b"]);
}

#[test]
fn prefix_at_a_path_that_ends_in_a_slash() {
    let mut app: App = tide::with_state(0);
    app.at("/static/").strip_prefix().get("files");
    assert_eq!(
        kinds(&app.router.get.entries[0].pattern),
        vec!["lit:static", "lit:"]
    );
    assert_eq!(
        kinds(&app.router.get.entries[1].pattern),
        vec!["lit:static", "rest:--tide-path-rest"]
    );
    let app = app.into_http_service();

    assert_eq!(steps(&app, Method::Get, "/static/"), vec!["ep:files:/"]);
    assert_eq!(
        steps(&app, Method::Get, "/static/a/b"),
        vec!["ep:files:/a/b"]
    );
    assert_eq!(steps(&app, Method::Get, "/static"), vec!["status:404"]);
}

#[test]
fn prefix_with_captures_on_the_way() {
    let mut app: App = tide::with_state(0);
    app.at("/users/:id").strip_prefix().get("user");
    let app = app.into_http_service();

    let req = Request::new(
        Arc::new(()),
        HttpRequest::new(Method::Get, "/users/7/posts/3"),
        vec![],
    );
    match app.call(req) {
        Step::Endpoint(endpoint, req) => {
            assert_eq!(*endpoint, "user");
            assert_eq!(req.param("id"), "7");
            assert_eq!(req.rest(), Some("posts/3"));
            assert_eq!(req.uri().path(), "/posts/3");
            assert_eq!(req.route_params.len(), 1);
            assert_eq!(req.route_params[0].iter().count(), 2);
        }
        _ => panic!("the route was not found"),
    }
}

#[test]
fn endpoints_in_a_nested_application_see_both_matches() {
    let mut inner: App = tide::with_state(1);
    inner.at("/posts/:post").get("post");
    let inner = inner.into_http_service();

    let mut outer: tide::Server<u32, u8, &'static str> = tide::with_state(0);
    outer.at("/users/:user").nest(9);
    let outer = outer.into_http_service();

    let req = Request::new(
        Arc::new(()),
        HttpRequest::new(Method::Get, "/users/ann/posts/3"),
        vec![],
    );
    let req = match outer.call(req) {
        Step::Endpoint(endpoint, req) => {
            assert_eq!(*endpoint, 9);
            assert_eq!(*req.state(), 0);
            req
        }
        _ => panic!("the mount was not found"),
    };
    match inner.call(req) {
        Step::Endpoint(endpoint, req) => {
            assert_eq!(*endpoint, "post");
            assert_eq!(*req.state(), 1);
            assert_eq!(req.route_params.len(), 2);
            assert_eq!(req.param("user"), "ann");
            assert_eq!(req.param("post"), "3");
            assert_eq!(req.uri().path(), "/posts/3");
            assert_eq!(req.rest(), None);
        }
        _ => panic!("the inner route was not found"),
    }
}
