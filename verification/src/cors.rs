//! Cors middleware
//!
//! The middleware decides on each request by the `Origin` header and the
//! method. A request from an origin that is not allowed is answered at once
//! with status 401. A preflight request, one of method `OPTIONS`, is
//! answered at once with what is allowed: the methods, the headers, and the
//! origin as every other response names it, which is the wildcard where
//! every origin is allowed. Any other request goes on through
//! the chain, and the response that comes back is given the headers that
//! let the origin read it.

use crate::headers::first_value;
use crate::method::Method;
use crate::request::Request;
use crate::response::{bare, Response, ResponseView, OK, UNAUTHORIZED};
use crate::text::{is_visible_ascii, str_equal, visible_ascii};
use crate::uri::text_of;
use vstd::prelude::*;
use vstd::std_specs::convert::FromSpecImpl;

verus! {

/// The number of seconds for which a preflight answer may be kept, unless
/// set otherwise.
pub const DEFAULT_MAX_AGE: &'static str = "86400";

/// The methods that are allowed unless set otherwise.
pub const DEFAULT_METHODS: &'static str = "GET, POST, OPTIONS";

/// The value that allows everything.
pub const WILDCARD: &'static str = "*";

/// allow_origin enum
pub enum Origin {
    /// Wildcard. Accept all origin requests
    Any,
    /// Set a single allow_origin target
    Exact(String),
    /// Set multiple allow_origin targets
    List(Vec<String>),
}

/// The mathematical value of an [`Origin`].
pub enum OriginView {
    Any,
    Exact(Seq<char>),
    List(Seq<Seq<char>>),
}

impl View for Origin {
    type V = OriginView;

    open spec fn view(&self) -> OriginView {
        match self {
            Origin::Any => OriginView::Any,
            Origin::Exact(s) => OriginView::Exact(s@),
            Origin::List(list) => OriginView::List(list@.map_values(|s: String| s@)),
        }
    }
}

/// The policy that one origin given as text stands for: the wildcard allows
/// every origin, any other text allows the origin of that name.
pub open spec fn single_origin(text: Seq<char>) -> OriginView {
    if text == "*"@ {
        OriginView::Any
    } else {
        OriginView::Exact(text)
    }
}

/// The policy that a list of origins stands for: a list of one stands for
/// that origin alone.
pub open spec fn listed_origins(list: Seq<Seq<char>>) -> OriginView {
    if list.len() == 1 {
        single_origin(list[0])
    } else {
        OriginView::List(list)
    }
}

impl From<String> for Origin {
    fn from(s: String) -> (origin: Origin)
        ensures
            origin@ == single_origin(s@),
    {
        if str_equal(s.as_str(), "*") {
            return Origin::Any;
        }
        Origin::Exact(s)
    }
}

impl FromSpecImpl<String> for Origin {
    open spec fn obeys_from_spec() -> bool {
        true
    }

    open spec fn from_spec(s: String) -> Origin {
        if s@ == "*"@ {
            Origin::Any
        } else {
            Origin::Exact(s)
        }
    }
}

impl From<&str> for Origin {
    fn from(s: &str) -> (origin: Origin)
        ensures
            origin@ == single_origin(s@),
    {
        Origin::from(String::from_str(s))
    }
}

impl FromSpecImpl<&str> for Origin {
    open spec fn obeys_from_spec() -> bool {
        false
    }

    open spec fn from_spec(s: &str) -> Origin {
        arbitrary()
    }
}

impl From<Vec<String>> for Origin {
    fn from(list: Vec<String>) -> (origin: Origin)
        ensures
            origin@ == listed_origins(list@.map_values(|s: String| s@)),
    {
        if list.len() == 1 {
            return Origin::from(list[0].clone());
        }
        Origin::List(list)
    }
}

impl FromSpecImpl<Vec<String>> for Origin {
    open spec fn obeys_from_spec() -> bool {
        true
    }

    open spec fn from_spec(list: Vec<String>) -> Origin {
        if list@.len() == 1 {
            <Origin as vstd::std_specs::convert::FromSpec<String>>::from_spec(list@[0])
        } else {
            Origin::List(list)
        }
    }
}

impl From<Vec<&str>> for Origin {
    fn from(list: Vec<&str>) -> (origin: Origin)
        ensures
            origin@ == listed_origins(list@.map_values(|s: &str| s@)),
    {
        let mut owned: Vec<String> = Vec::new();
        let mut i: usize = 0;
        while i < list.len()
            invariant
                i <= list@.len(),
                owned@.len() == i,
                forall|k: int| 0 <= k < i ==> (#[trigger] owned@[k])@ == list@[k]@,
            decreases list@.len() - i,
        {
            owned.push(String::from_str(list[i]));
            i += 1;
        }
        assert(owned@.map_values(|s: String| s@) =~= list@.map_values(|s: &str| s@));
        Origin::from(owned)
    }
}

impl FromSpecImpl<Vec<&str>> for Origin {
    open spec fn obeys_from_spec() -> bool {
        false
    }

    open spec fn from_spec(list: Vec<&str>) -> Origin {
        arbitrary()
    }
}

/// Middleware for CORS
pub struct Cors {
    pub allow_credentials: Option<String>,
    pub allow_headers: String,
    pub allow_methods: String,
    pub allow_origin: Origin,
    pub expose_headers: Option<String>,
    pub max_age: String,
}

/// The mathematical value of a [`Cors`].
pub struct CorsView {
    pub allow_credentials: Option<Seq<char>>,
    pub allow_headers: Seq<char>,
    pub allow_methods: Seq<char>,
    pub allow_origin: OriginView,
    pub expose_headers: Option<Seq<char>>,
    pub max_age: Seq<char>,
}

impl View for Cors {
    type V = CorsView;

    open spec fn view(&self) -> CorsView {
        CorsView {
            allow_credentials: text_of(self.allow_credentials),
            allow_headers: self.allow_headers@,
            allow_methods: self.allow_methods@,
            allow_origin: self.allow_origin@,
            expose_headers: text_of(self.expose_headers),
            max_age: self.max_age@,
        }
    }
}

/// Whether the policy lets requests from `origin` through. An origin that is
/// not printable ASCII is never let through.
pub open spec fn allows(policy: OriginView, origin: Seq<char>) -> bool {
    visible_ascii(origin) && match policy {
        OriginView::Any => true,
        OriginView::Exact(s) => s == origin,
        OriginView::List(list) => list.contains(origin),
    }
}

/// The origin that a response names as allowed: the wildcard where every
/// origin is allowed, the origin of the request otherwise; none for an
/// origin that is not allowed.
pub open spec fn allowed_origin(policy: OriginView, origin: Seq<char>) -> Option<Seq<char>> {
    if !allows(policy, origin) {
        None
    } else if policy is Any {
        Some("*"@)
    } else {
        Some(origin)
    }
}

/// The origin that a request names: the value of its `Origin` header, empty
/// where it has none.
pub open spec fn origin_of(headers: Seq<(Seq<char>, Seq<char>)>) -> Seq<char> {
    match first_value(headers, "origin"@) {
        Some(origin) => origin,
        None => Seq::empty(),
    }
}

/// The headers that say whether credentials are allowed and which headers
/// are exposed, for a middleware that has them set, added to `headers`.
pub open spec fn with_optional(cors: CorsView, headers: Seq<(Seq<char>, Seq<char>)>) -> Seq<
    (Seq<char>, Seq<char>),
> {
    let credentials = match cors.allow_credentials {
        Some(c) => headers.push(("access-control-allow-credentials"@, c)),
        None => headers,
    };
    match cors.expose_headers {
        Some(e) => credentials.push(("access-control-expose-headers"@, e)),
        None => credentials,
    }
}

/// The answer to a preflight request, with `origin` as the origin that is
/// named as allowed.
pub open spec fn preflight(cors: CorsView, origin: Seq<char>) -> ResponseView {
    ResponseView {
        headers: with_optional(
            cors,
            seq![
                ("access-control-allow-origin"@, origin),
                ("access-control-allow-methods"@, cors.allow_methods),
                ("access-control-allow-headers"@, cors.allow_headers),
                ("access-control-max-age"@, cors.max_age),
            ],
        ),
        ..bare(OK)
    }
}

/// The response of the chain as the middleware hands it back for a request
/// from `origin`, which the policy allows.
pub open spec fn finished(cors: CorsView, origin: Seq<char>, res: ResponseView) -> ResponseView {
    ResponseView {
        headers: with_optional(
            cors,
            res.headers.push(
                ("access-control-allow-origin"@, allowed_origin(cors.allow_origin, origin)->0),
            ),
        ),
        ..res
    }
}

/// What the middleware does with a request.
pub enum CorsAction<State> {
    /// Answer with this response; nothing behind the middleware runs.
    Respond(Response),
    /// Run the rest of the chain on this request, and hand its response to
    /// `Cors::finish` together with this origin.
    Forward(Request<State>, String),
}

impl Cors {
    /// Creates a new Cors middleware.
    pub fn new() -> (cors: Cors)
        ensures
            cors@ == (CorsView {
                allow_credentials: None,
                allow_headers: "*"@,
                allow_methods: "GET, POST, OPTIONS"@,
                allow_origin: OriginView::Any,
                expose_headers: None,
                max_age: "86400"@,
            }),
    {
        Cors {
            allow_credentials: None,
            allow_headers: String::from_str(WILDCARD),
            allow_methods: String::from_str(DEFAULT_METHODS),
            allow_origin: Origin::Any,
            expose_headers: None,
            max_age: String::from_str(DEFAULT_MAX_AGE),
        }
    }

    /// Set allow_credentials and return new Cors
    pub fn allow_credentials(self, allow_credentials: bool) -> (cors: Cors)
        ensures
            cors@ == (CorsView {
                allow_credentials: Some(
                    if allow_credentials {
                        "true"@
                    } else {
                        "false"@
                    },
                ),
                ..self@
            }),
    {
        let mut cors = self;
        cors.allow_credentials = Some(
            if allow_credentials {
                String::from_str("true")
            } else {
                String::from_str("false")
            },
        );
        cors
    }

    /// Set allow_headers and return new Cors
    pub fn allow_headers(self, headers: &str) -> (cors: Cors)
        ensures
            cors@ == (CorsView { allow_headers: headers@, ..self@ }),
    {
        let mut cors = self;
        cors.allow_headers = String::from_str(headers);
        cors
    }

    /// Set max_age and return new Cors
    pub fn max_age(self, max_age: &str) -> (cors: Cors)
        ensures
            cors@ == (CorsView { max_age: max_age@, ..self@ }),
    {
        let mut cors = self;
        cors.max_age = String::from_str(max_age);
        cors
    }

    /// Set allow_methods and return new Cors
    pub fn allow_methods(self, methods: &str) -> (cors: Cors)
        ensures
            cors@ == (CorsView { allow_methods: methods@, ..self@ }),
    {
        let mut cors = self;
        cors.allow_methods = String::from_str(methods);
        cors
    }

    /// Set allow_origin and return new Cors
    pub fn allow_origin(self, origin: Origin) -> (cors: Cors)
        ensures
            cors@ == (CorsView { allow_origin: origin@, ..self@ }),
    {
        let mut cors = self;
        cors.allow_origin = origin;
        cors
    }

    /// Set expose_headers and return new Cors
    pub fn expose_headers(self, headers: &str) -> (cors: Cors)
        ensures
            cors@ == (CorsView { expose_headers: Some(headers@), ..self@ }),
    {
        let mut cors = self;
        cors.expose_headers = Some(String::from_str(headers));
        cors
    }

    fn add_optional(&self, response: Response) -> (res: Response)
        ensures
            res@ == (ResponseView {
                headers: with_optional(self@, response@.headers),
                ..response@
            }),
    {
        let mut response = response;
        match &self.allow_credentials {
            Some(allow_credentials) => {
                response =
                response.append_header(
                    "access-control-allow-credentials",
                    allow_credentials.as_str(),
                );
            },
            None => {},
        }
        match &self.expose_headers {
            Some(expose_headers) => {
                response =
                response.append_header("access-control-expose-headers", expose_headers.as_str());
            },
            None => {},
        }
        response
    }

    /// The answer to a preflight request that names `origin` as the origin
    /// that is allowed: status 200 and what this middleware allows.
    pub fn build_preflight_response(&self, origin: &str) -> (res: Response)
        ensures
            res@ == preflight(self@, origin@),
    {
        let response = Response::new(OK).append_header(
            "access-control-allow-origin",
            origin,
        ).append_header("access-control-allow-methods", self.allow_methods.as_str()).append_header(
            "access-control-allow-headers",
            self.allow_headers.as_str(),
        ).append_header("access-control-max-age", self.max_age.as_str());
        assert(response@.headers =~= seq![
            ("access-control-allow-origin"@, origin@),
            ("access-control-allow-methods"@, self@.allow_methods),
            ("access-control-allow-headers"@, self@.allow_headers),
            ("access-control-max-age"@, self@.max_age),
        ]);
        self.add_optional(response)
    }

    /// Look at origin of request and determine allow_origin
    pub fn response_origin(&self, origin: &str) -> (allowed: Option<String>)
        ensures
            allowed is Some == allowed_origin(self@.allow_origin, origin@) is Some,
            allowed is Some ==> allowed->0@ == allowed_origin(self@.allow_origin, origin@)->0,
    {
        if !self.is_valid_origin(origin) {
            return None;
        }
        match self.allow_origin {
            Origin::Any => Some(String::from_str(WILDCARD)),
            _ => Some(String::from_str(origin)),
        }
    }

    /// Determine if origin is appropriate
    pub fn is_valid_origin(&self, origin: &str) -> (valid: bool)
        ensures
            valid == allows(self@.allow_origin, origin@),
    {
        if !is_visible_ascii(origin) {
            return false;
        }
        match &self.allow_origin {
            Origin::Any => true,
            Origin::Exact(s) => str_equal(s.as_str(), origin),
            Origin::List(list) => {
                let ghost names = list@.map_values(|s: String| s@);
                let mut i: usize = 0;
                while i < list.len()
                    invariant
                        i <= list@.len(),
                        names == list@.map_values(|s: String| s@),
                        self@.allow_origin == OriginView::List(names),
                        visible_ascii(origin@),
                        forall|k: int| 0 <= k < i ==> names[k] != origin@,
                    decreases list@.len() - i,
                {
                    if str_equal(list[i].as_str(), origin) {
                        assert(names[i as int] == origin@);
                        assert(names.contains(origin@));
                        return true;
                    }
                    i += 1;
                }
                false
            },
        }
    }

    /// Decides what to do with a request: answer it at once, or let it go
    /// on through the chain.
    pub fn handle<State>(&self, req: Request<State>) -> (action: CorsAction<State>)
        ensures
            match action {
                CorsAction::Respond(res) => {
                    if !allows(self@.allow_origin, origin_of(req@.headers)) {
                        res@ == bare(UNAUTHORIZED)
                    } else {
                        req@.method == Method::Options && res@ == preflight(
                            self@,
                            allowed_origin(self@.allow_origin, origin_of(req@.headers))->0,
                        )
                    }
                },
                CorsAction::Forward(forwarded, origin) => {
                    &&& allows(self@.allow_origin, origin_of(req@.headers))
                    &&& req@.method != Method::Options
                    &&& forwarded == req
                    &&& origin@ == origin_of(req@.headers)
                },
            },
    {
        let origin = match req.header("origin") {
            Some(origin) => String::from_str(origin),
            None => String::new(),
        };
        assert(origin@ =~= origin_of(req@.headers));
        if !self.is_valid_origin(origin.as_str()) {
            return CorsAction::Respond(Response::new(UNAUTHORIZED));
        }
        // Return results immediately upon preflight request

        if *req.method() == Method::Options {
            let allowed = match self.response_origin(origin.as_str()) {
                Some(allowed) => allowed,
                None => {
                    proof {
                        assert(false);
                    }
                    String::new()
                },
            };
            return CorsAction::Respond(self.build_preflight_response(allowed.as_str()));
        }
        CorsAction::Forward(req, origin)
    }

    /// Finishes the response of the chain for a request from `origin`: the
    /// headers that let the origin read the response are added to it.
    pub fn finish(&self, origin: &str, response: Response) -> (res: Response)
        requires
            allows(self@.allow_origin, origin@),
        ensures
            res@ == finished(self@, origin@, response@),
    {
        let allowed = match self.response_origin(origin) {
            Some(allowed) => allowed,
            None => {
                proof {
                    assert(false);
                }
                String::new()
            },
        };
        let response = response.append_header("access-control-allow-origin", allowed.as_str());
        self.add_optional(response)
    }
}

impl Default for Cors {
    fn default() -> (cors: Cors)
        ensures
            cors@ == (CorsView {
                allow_credentials: None,
                allow_headers: "*"@,
                allow_methods: "GET, POST, OPTIONS"@,
                allow_origin: OriginView::Any,
                expose_headers: None,
                max_age: "86400"@,
            }),
    {
        Cors::new()
    }
}

} // verus!
