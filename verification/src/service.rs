//! The service envelope: the mutable request and response objects that flow
//! through the dispatch chain, guards, and the registration of a web service
//! against the dispatch table.

use vstd::prelude::*;
use crate::error::Error;
use crate::http::{
    remove_header, Body, HeaderMap, Method, PeerAddr, RequestHead, Response, ResponseHead, Uri,
};
use crate::payload::Payload;
use crate::registry::{DataLayer, SharedMutationError};
use crate::request::{
    spec_connection_info, AppConfig, ConnectionInfo, DataValue, HttpRequest, MatchParams,
    ResourceMap, CONN_INFO_KEY,
};
use crate::text;

verus! {

/// A predicate over a request head, used to admit or reject a route match
/// beyond the path pattern.
pub enum Guard {
    /// Passes when the request method equals the given one.
    MethodIs(Method),
    /// Passes when the named header is present with exactly the given value.
    HeaderEq(String, String),
}

impl Guard {
    pub open spec fn spec_check(&self, head: RequestHead) -> bool {
        match self {
            Guard::MethodIs(m) => head.method == m,
            Guard::HeaderEq(name, value) => head.headers.spec_get(name@) == Some(value@),
        }
    }

    /// Evaluate this guard against a request head.
    pub fn check(&self, head: &RequestHead) -> (r: bool)
        ensures
            r == self.spec_check(*head),
    {
        match self {
            Guard::MethodIs(m) => *m == head.method,
            Guard::HeaderEq(name, value) => match head.headers.get(name.as_str()) {
                Some(v) => v.eq(value),
                None => false,
            },
        }
    }
}

/// All guards pass: logical AND over the list.
pub open spec fn guards_pass(guards: Seq<Guard>, head: RequestHead) -> bool {
    forall|i: int| 0 <= i < guards.len() ==> guards[i].spec_check(head)
}

/// A route definition: the path patterns it answers to, and its name.
pub struct ResourceDef {
    pub patterns: Vec<String>,
    pub name: String,
}

impl ResourceDef {
    pub fn new(patterns: Vec<String>) -> (r: Self)
        ensures
            r.patterns == patterns,
            r.name@ =~= Seq::<char>::empty(),
    {
        ResourceDef { patterns, name: String::new() }
    }
}

/// One sealed registration handed to the dispatch table: route definition,
/// guard list, and the service factory behind an opaque token that the
/// hosting application maps to the actual factory.
pub struct ServiceRegistration {
    pub rdef: ResourceDef,
    pub guards: Option<Vec<Guard>>,
    pub service: u64,
}

/// Whether `path` is one of the registration's patterns, literally.
pub open spec fn path_matches(reg: ServiceRegistration, path: Seq<char>) -> bool {
    exists|i: int| 0 <= i < reg.rdef.patterns@.len() && reg.rdef.patterns@[i]@ == path
}

/// Whether the registration's guards all admit `head` (no guards admit all).
pub open spec fn reg_guards_pass(reg: ServiceRegistration, head: RequestHead) -> bool {
    match reg.guards {
        Some(gs) => guards_pass(gs@, head),
        None => true,
    }
}

/// Whether a request head selects this registration: its path is one of the
/// patterns and every guard admits it.
pub open spec fn spec_matches(reg: ServiceRegistration, head: RequestHead) -> bool {
    path_matches(reg, head.uri.path@) && reg_guards_pass(reg, head)
}

impl ServiceRegistration {
    /// Dispatch-level match: literal path match against the patterns, then
    /// the guard conjunction.
    pub fn matches_request(&self, head: &RequestHead) -> (r: bool)
        ensures
            r == spec_matches(*self, *head),
    {
        let mut found = false;
        let n = self.rdef.patterns.len();
        let mut i: usize = 0;
        while i < n
            invariant
                n == self.rdef.patterns@.len(),
                i <= n,
                found == exists|j: int|
                    0 <= j < i && self.rdef.patterns@[j]@ == head.uri.path@,
            decreases n - i,
        {
            if self.rdef.patterns[i].eq(&head.uri.path) {
                found = true;
            }
            i = i + 1;
        }
        if !found {
            return false;
        }
        match &self.guards {
            None => true,
            Some(gs) => {
                let m = gs.len();
                let mut k: usize = 0;
                while k < m
                    invariant
                        m == gs@.len(),
                        k <= m,
                        self.guards == Some(*gs),
                        found == path_matches(*self, head.uri.path@),
                        forall|j: int| 0 <= j < k ==> gs@[j].spec_check(*head),
                    decreases m - k,
                {
                    if !gs[k].check(head) {
                        proof {
                            assert(!gs@[k as int].spec_check(*head));
                            assert(!guards_pass(gs@, *head));
                        }
                        return false;
                    }
                    k = k + 1;
                }
                true
            },
        }
    }
}

/// The registrar side of the dispatch table: collects the registrations of
/// an application or of a nested scope.
pub struct AppService {
    pub root: bool,
    pub services: Vec<ServiceRegistration>,
}

impl AppService {
    pub fn new(root: bool) -> (r: Self)
        ensures
            r.root == root,
            r.services@ =~= Seq::<ServiceRegistration>::empty(),
    {
        AppService { root, services: Vec::new() }
    }

    /// Whether this configuration belongs to the application root.
    pub fn is_root(&self) -> (r: bool)
        ensures
            r == self.root,
    {
        self.root
    }

    /// Accept one registration.
    pub fn register_service(
        &mut self,
        rdef: ResourceDef,
        guards: Option<Vec<Guard>>,
        service: u64,
    )
        ensures
            final(self).root == old(self).root,
            final(self).services@ =~= old(self).services@.push(
                ServiceRegistration { rdef, guards, service },
            ),
    {
        self.services.push(ServiceRegistration { rdef, guards, service });
    }
}

/// A unit that knows how to register itself against the dispatch table.
pub trait HttpServiceFactory {
    fn register(self, config: &mut AppService);
}

/// Holds a factory until the application assembly registers it; registering
/// twice is a no-op by construction.
pub struct ServiceFactoryWrapper<T> {
    pub factory: Option<T>,
}

impl<T> ServiceFactoryWrapper<T> {
    pub fn new(factory: T) -> (r: Self)
        ensures
            r.factory == Some(factory),
    {
        ServiceFactoryWrapper { factory: Some(factory) }
    }
}

impl<T: HttpServiceFactory> ServiceFactoryWrapper<T> {
    /// Register the held factory: the slot is emptied, so registration runs
    /// at most once, and a repeat call changes nothing.
    pub fn register(&mut self, config: &mut AppService)
        ensures
            final(self).factory is None,
            old(self).factory is None ==> *final(config) == *old(config),
    {
        let mut taken: Option<T> = None;
        core::mem::swap(&mut self.factory, &mut taken);
        if let Some(item) = taken {
            item.register(config);
        }
    }
}

/// `p` with a leading slash, unless it is empty or already has one.
pub open spec fn slashed(p: Seq<char>) -> Seq<char> {
    if p.len() > 0 && p[0] != '/' {
        seq!['/'] + p
    } else {
        p
    }
}

/// Prefix every non-empty pattern that lacks one with a slash.
pub fn insert_slash(patterns: Vec<String>) -> (r: Vec<String>)
    ensures
        r@.len() == patterns@.len(),
        forall|i: int| 0 <= i < r@.len() ==> r@[i]@ == slashed(#[trigger] patterns@[i]@),
{
    let n = patterns.len();
    let mut out: Vec<String> = Vec::new();
    let mut i: usize = 0;
    while i < n
        invariant
            n == patterns@.len(),
            i <= n,
            out@.len() == i,
            forall|j: int| 0 <= j < i ==> out@[j]@ == slashed(#[trigger] patterns@[j]@),
        decreases n - i,
    {
        let p = &patterns[i];
        let len = p.as_str().unicode_len();
        if len > 0 && p.as_str().get_char(0) != '/' {
            proof {
                reveal_strlit("/");
            }
            let s = String::from_str("/").concat(p.as_str());
            proof {
                assert(s@ =~= slashed(p@));
            }
            out.push(s);
        } else {
            out.push(p.clone());
        }
        i = i + 1;
    }
    out
}

/// Builder for a web service bound to path patterns, with optional guards
/// and an optional name, sealed by `finish`.
pub struct WebService {
    pub rdef: Vec<String>,
    pub name: Option<String>,
    pub guards: Vec<Guard>,
}

impl WebService {
    /// Create a new builder for the given path pattern.
    pub fn new(path: String) -> (r: Self)
        ensures
            r.rdef@ =~= seq![path],
            r.name is None,
            r.guards@ =~= Seq::<Guard>::empty(),
    {
        let mut rdef: Vec<String> = Vec::new();
        rdef.push(path);
        WebService { rdef, name: None, guards: Vec::new() }
    }

    /// Set the service name, used for URL generation.
    pub fn name(self, name: &str) -> (r: Self)
        ensures
            r.rdef == self.rdef,
            r.name matches Some(n) && n@ == name@,
            r.guards == self.guards,
    {
        WebService { rdef: self.rdef, name: Some(name.to_owned()), guards: self.guards }
    }

    /// Append one match guard; all guards must pass for the route to match.
    pub fn guard(self, guard: Guard) -> (r: Self)
        ensures
            r.rdef == self.rdef,
            r.name == self.name,
            r.guards@ =~= self.guards@.push(guard),
    {
        let mut guards = self.guards;
        guards.push(guard);
        WebService { rdef: self.rdef, name: self.name, guards }
    }

    /// Seal the builder around a service factory token into a registrable
    /// unit.
    pub fn finish(self, service: u64) -> (r: WebServiceImpl)
        ensures
            r.srv == service,
            r.rdef == self.rdef,
            r.name == self.name,
            r.guards == self.guards,
    {
        WebServiceImpl { srv: service, rdef: self.rdef, name: self.name, guards: self.guards }
    }
}

/// A sealed web service, ready to register itself.
pub struct WebServiceImpl {
    pub srv: u64,
    pub rdef: Vec<String>,
    pub name: Option<String>,
    pub guards: Vec<Guard>,
}

/// The registration that sealing `w` at a scope produces: the factory token;
/// the guard list when non-empty; the assigned name; the patterns, with a
/// leading slash inserted at the root scope or when a pattern list was given.
pub open spec fn spec_registers(w: WebServiceImpl, root: bool, r: ServiceRegistration) -> bool {
    &&& r.service == w.srv
    &&& (w.guards@.len() == 0 ==> r.guards is None)
    &&& (w.guards@.len() > 0 ==> r.guards == Some(w.guards))
    &&& r.rdef.name@ == match w.name {
        Some(n) => n@,
        None => Seq::<char>::empty(),
    }
    &&& (root || w.rdef@.len() > 0 ==> r.rdef.patterns@.len() == w.rdef@.len() && forall|i: int|
        0 <= i < r.rdef.patterns@.len() ==> r.rdef.patterns@[i]@ == slashed(
            #[trigger] w.rdef@[i]@,
        ))
    &&& (!(root || w.rdef@.len() > 0) ==> r.rdef.patterns == w.rdef)
}

impl WebServiceImpl {
    /// Build the registration this service stands for: the patterns, with a
    /// leading slash inserted at the root scope or when a pattern list was
    /// given; the assigned name; the guard list when non-empty; the factory
    /// token.
    pub fn into_registration(self, root: bool) -> (r: ServiceRegistration)
        ensures
            spec_registers(self, root, r),
    {
        let WebServiceImpl { srv, rdef, name, guards } = self;
        let guards_opt = if guards.len() == 0 {
            None
        } else {
            Some(guards)
        };
        let mut def = if root || rdef.len() > 0 {
            ResourceDef::new(insert_slash(rdef))
        } else {
            ResourceDef::new(rdef)
        };
        if let Some(n) = name {
            def.name = n;
        }
        ServiceRegistration { rdef: def, guards: guards_opt, service: srv }
    }
}

impl HttpServiceFactory for WebServiceImpl {
    /// Build the route definition — auto-inserting the leading slash at the
    /// root scope or when patterns were given — assign the name, and hand
    /// the registration to the dispatch table: exactly one registration,
    /// built from this builder at the configuration's scope, is appended.
    fn register(self, config: &mut AppService)
        ensures
            final(config).root == old(config).root,
            final(config).services@.len() == old(config).services@.len() + 1,
            final(config).services@.drop_last() =~= old(config).services@,
            spec_registers(self, old(config).root, final(config).services@.last()),
    {
        let root = config.is_root();
        let reg = self.into_registration(root);
        config.register_service(reg.rdef, reg.guards, reg.service);
    }
}

/// The unit that flows through the dispatch chain: one shared request handle
/// plus the exclusively owned payload stream.
pub struct ServiceRequest {
    pub req: HttpRequest,
    pub payload: Payload,
}

impl ServiceRequest {
    /// Construct a service request; no validation.
    pub fn new(req: HttpRequest, payload: Payload) -> (r: Self)
        ensures
            r.req == req,
            r.payload == payload,
    {
        ServiceRequest { req, payload }
    }

    /// Deconstruct into the handle and the payload.
    pub fn into_parts(self) -> (r: (HttpRequest, Payload))
        ensures
            r.0 == self.req,
            r.1 == self.payload,
    {
        (self.req, self.payload)
    }

    /// Reassemble from parts; the round trip through `into_parts` restores
    /// the original observable state.
    pub fn from_parts(req: HttpRequest, payload: Payload) -> (r: Self)
        ensures
            r.req == req,
            r.payload == payload,
    {
        ServiceRequest { req, payload }
    }

    /// Construct from a bare handle, with an empty payload: for stages after
    /// the body was already consumed.
    pub fn from_request(req: HttpRequest) -> (r: Self)
        ensures
            r.req == req,
            r.payload is Empty,
    {
        ServiceRequest { req, payload: Payload::Empty }
    }

    /// Terminal conversion into a response, discarding any unconsumed
    /// payload: a handler need not drain the body.
    pub fn into_response(self, res: Response) -> (r: ServiceResponse)
        ensures
            r.request == self.req,
            r.response == res,
    {
        ServiceResponse { request: self.req, response: res }
    }

    /// Terminal conversion into an error response.
    pub fn error_response(self, err: Error) -> (r: ServiceResponse)
        ensures
            r.request == self.req,
            r.response.head.status == err.status,
            r.response.body == Body::Text(err.message),
    {
        ServiceResponse {
            request: self.req,
            response: Response::with_body(err.status, Body::Text(err.message)),
        }
    }

    pub fn head(&self) -> (r: &RequestHead)
        ensures
            r == &self.req.head,
    {
        &self.req.head
    }

    /// Mutable access to the request head.
    pub fn head_mut(&mut self) -> (r: &mut RequestHead)
        ensures
            *r == old(self).req.head,
            final(self).req.head == *final(r),
            final(self).req.params == old(self).req.params,
            final(self).req.app_data == old(self).req.app_data,
            final(self).req.extensions == old(self).req.extensions,
            final(self).payload == old(self).payload,
    {
        &mut self.req.head
    }

    pub fn uri(&self) -> (r: &Uri)
        ensures
            r == &self.req.head.uri,
    {
        &self.req.head.uri
    }

    pub fn method(&self) -> (r: &Method)
        ensures
            r == &self.req.head.method,
    {
        &self.req.head.method
    }

    pub fn version(&self) -> (r: crate::http::Version)
        ensures
            r == self.req.head.version,
    {
        self.req.head.version
    }

    pub fn headers(&self) -> (r: &HeaderMap)
        ensures
            r == &self.req.head.headers,
    {
        &self.req.head.headers
    }

    /// Mutable access to the request headers.
    pub fn headers_mut(&mut self) -> (r: &mut HeaderMap)
        ensures
            *r == old(self).req.head.headers,
            final(self).req.head.headers == *final(r),
            final(self).req.head.method == old(self).req.head.method,
            final(self).req.head.uri == old(self).req.head.uri,
            final(self).req.head.version == old(self).req.head.version,
            final(self).req.head.peer_addr == old(self).req.head.peer_addr,
            final(self).req.params == old(self).req.params,
            final(self).req.app_data == old(self).req.app_data,
            final(self).req.extensions == old(self).req.extensions,
            final(self).payload == old(self).payload,
    {
        &mut self.req.head.headers
    }

    /// Replace every value of `name` in the request headers with `value`.
    pub fn insert_header(&mut self, name: String, value: String)
        ensures
            final(self).req.head.headers.entries@ =~= remove_header(
                old(self).req.head.headers.entries@,
                name@,
            ).push((name, value)),
            final(self).payload == old(self).payload,
    {
        self.req.head.headers.insert(name, value);
    }

    /// The target path of this request.
    pub fn path(&self) -> (r: &str)
        ensures
            r@ == self.req.head.uri.path@,
    {
        self.req.head.uri.path.as_str()
    }

    /// The query string in the URL; empty when the URL carries none.
    pub fn query_string(&self) -> (r: &str)
        ensures
            r@ == self.req.head.uri.query@,
    {
        self.req.head.uri.query.as_str()
    }

    /// Peer socket address, or the proxy's when one fronts the server.
    pub fn peer_addr(&self) -> (r: Option<&PeerAddr>)
        ensures
            match r {
                Some(a) => self.req.head.peer_addr == Some(*a),
                None => self.req.head.peer_addr is None,
            },
    {
        self.req.head.peer_addr.as_ref()
    }

    /// Connection information for this request: derived from the head and
    /// the application configuration on the first call, memoized in the
    /// request's extensions, and read back from the cache on every later
    /// call.
    pub fn connection_info(&mut self) -> (r: ConnectionInfo)
        ensures
            final(self).payload == old(self).payload,
            final(self).req.head == old(self).req.head,
            final(self).req.params == old(self).req.params,
            final(self).req.app_data == old(self).req.app_data,
            match old(self).req.extensions.spec_get(CONN_INFO_KEY) {
                Some(DataValue::ConnInfo(ci)) => r == ci && *final(self) == *old(self),
                _ => (r.scheme@, r.host@) == spec_connection_info(
                    old(self).req.head,
                    old(self).req.config,
                ) && final(self).req.extensions.spec_get(CONN_INFO_KEY) == Some(
                    DataValue::ConnInfo(r),
                ),
            },
    {
        self.req.connection_info()
    }

    /// The matched path parameters.
    pub fn match_info(&self) -> (r: &MatchParams)
        ensures
            r == &self.req.params,
    {
        &self.req.params
    }

    /// Mutable access to the matched path parameters.
    pub fn match_info_mut(&mut self) -> (r: &mut MatchParams)
        ensures
            *r == old(self).req.params,
            final(self).req.params == *final(r),
            final(self).req.head == old(self).req.head,
            final(self).req.app_data == old(self).req.app_data,
            final(self).req.extensions == old(self).req.extensions,
            final(self).payload == old(self).payload,
    {
        &mut self.req.params
    }

    /// Record one more matched path parameter.
    pub fn push_match_param(&mut self, name: String, value: String)
        ensures
            final(self).req.params.segments@ =~= old(self).req.params.segments@.push(
                (name, value),
            ),
            final(self).payload == old(self).payload,
            final(self).req.head == old(self).req.head,
    {
        self.req.params.push(name, value);
    }

    /// Replace the matched parameters wholesale: for handler rewrites.
    pub fn set_match_params(&mut self, params: MatchParams)
        ensures
            final(self).req.params == params,
            final(self).payload == old(self).payload,
            final(self).req.head == old(self).req.head,
    {
        self.req.params = params;
    }

    pub fn match_name(&self) -> (r: Option<&String>)
        ensures
            match r {
                Some(v) => self.req.matched_name == Some(*v),
                None => self.req.matched_name is None,
            },
    {
        self.req.match_name()
    }

    pub fn match_pattern(&self) -> (r: Option<String>)
        ensures
            match r {
                Some(v) => self.req.matched_pattern matches Some(p) && p == v,
                None => self.req.matched_pattern is None,
            },
    {
        self.req.match_pattern()
    }

    pub fn resource_map(&self) -> (r: &ResourceMap)
        ensures
            r == &self.req.rmap,
    {
        &self.req.rmap
    }

    pub fn app_config(&self) -> (r: &AppConfig)
        ensures
            r == &self.req.config,
    {
        &self.req.config
    }

    /// First value for `key` walking the data layers innermost to outermost.
    pub fn app_data(&self, key: u64) -> (r: Option<&DataValue>)
        ensures
            match r {
                Some(v) => self.req.app_data.spec_lookup(key) == Some(*v),
                None => self.req.app_data.spec_lookup(key) is None,
            },
    {
        self.req.app_data(key)
    }

    /// Replace the payload unconditionally: for body-transform middleware.
    pub fn set_payload(&mut self, payload: Payload)
        ensures
            final(self).payload == payload,
            final(self).req == old(self).req,
    {
        self.payload = payload;
    }

    /// Append a data layer scoped to this request's handle; fails fast with
    /// `SharedMutationError` when the registry is aliased — a logic fault of
    /// the caller, not a runtime error.
    pub fn add_data_container(&mut self, layer: DataLayer<DataValue>) -> (r: Result<
        (),
        SharedMutationError,
    >)
        ensures
            old(self).req.app_data.is_owned() ==> r is Ok
                && final(self).req.app_data.spec_layers() =~= old(
                self,
            ).req.app_data.spec_layers().push(layer),
            !old(self).req.app_data.is_owned() ==> r is Err && *final(self) == *old(self),
            final(self).payload == old(self).payload,
            final(self).req.head == old(self).req.head,
            final(self).req.params == old(self).req.params,
            final(self).req.extensions == old(self).req.extensions,
            final(self).req.config == old(self).req.config,
            final(self).req.rmap == old(self).req.rmap,
            final(self).req.matched_name == old(self).req.matched_name,
            final(self).req.matched_pattern == old(self).req.matched_pattern,
    {
        self.req.push_data_layer(layer)
    }

    /// Move the payload out, leaving an empty one: a second take yields an
    /// empty stream, never an error.
    pub fn take_payload(&mut self) -> (r: Payload)
        ensures
            r == old(self).payload,
            final(self).payload is Empty,
            final(self).req == old(self).req,
    {
        self.payload.take()
    }

    /// Per-request extensions.
    pub fn extensions(&self) -> (r: &DataLayer<DataValue>)
        ensures
            r == &self.req.extensions,
    {
        self.req.extensions()
    }

    /// Per-request extensions, mutable.
    pub fn extensions_mut(&mut self) -> (r: &mut DataLayer<DataValue>)
        ensures
            *r == old(self).req.extensions,
            final(self).req.extensions == *final(r),
            final(self).req.head == old(self).req.head,
            final(self).req.params == old(self).req.params,
            final(self).req.app_data == old(self).req.app_data,
            final(self).payload == old(self).payload,
    {
        self.req.extensions_mut()
    }

    /// Per-request extensions, read side.
    pub fn get_extension(&self, key: u64) -> (r: Option<&DataValue>)
        ensures
            match r {
                Some(v) => self.req.extensions.spec_get(key) == Some(*v),
                None => self.req.extensions.spec_get(key) is None,
            },
    {
        self.req.get_extension(key)
    }

    /// Per-request extensions, write side.
    pub fn insert_extension(&mut self, key: u64, value: DataValue)
        ensures
            final(self).req.extensions.spec_get(key) == Some(value),
            final(self).payload == old(self).payload,
            final(self).req.head == old(self).req.head,
    {
        self.req.insert_extension(key, value);
    }

    /// Multi-line human-readable dump of method, version, path, non-empty
    /// query string, non-empty match parameters and all headers; for
    /// diagnostics only, not a wire format.
    pub fn debug_string(&self) -> (r: String)
        ensures
            r@ == spec_debug_request(*self),
    {
        let mut s = String::from_str("\nServiceRequest ");
        s.append(self.req.head.version.as_str());
        s.append(" ");
        s.append(self.req.head.method.as_str());
        s.append(":");
        s.append(self.req.head.uri.path.as_str());
        s.append("\n");
        if self.req.head.uri.query.as_str().unicode_len() > 0 {
            s.append("  query: ?");
            s.append(self.req.head.uri.query.as_str());
            s.append("\n");
        }
        if self.req.params.segments.len() > 0 {
            s.append("  params: ");
            let n = self.req.params.segments.len();
            let mut i: usize = 0;
            while i < n
                invariant
                    n == self.req.params.segments@.len(),
                    i <= n,
                    s@ == spec_debug_request_prefix(*self) + render_params(
                        self.req.params.segments@.take(i as int),
                    ),
                decreases n - i,
            {
                proof {
                    assert(self.req.params.segments@.take(i + 1).drop_last()
                        =~= self.req.params.segments@.take(i as int));
                }
                s.append(self.req.params.segments[i].0.as_str());
                s.append("=");
                s.append(self.req.params.segments[i].1.as_str());
                s.append(" ");
                i = i + 1;
            }
            proof {
                assert(self.req.params.segments@.take(n as int) =~= self.req.params.segments@);
            }
            s.append("\n");
        }
        s.append("  headers:\n");
        let ghost before_headers = s@;
        let n = self.req.head.headers.entries.len();
        let mut i: usize = 0;
        while i < n
            invariant
                n == self.req.head.headers.entries@.len(),
                i <= n,
                s@ == before_headers + render_headers(self.req.head.headers.entries@.take(i as int)),
            decreases n - i,
        {
            proof {
                assert(self.req.head.headers.entries@.take(i + 1).drop_last()
                    =~= self.req.head.headers.entries@.take(i as int));
            }
            s.append("    ");
            s.append(self.req.head.headers.entries[i].0.as_str());
            s.append(": ");
            s.append(self.req.head.headers.entries[i].1.as_str());
            s.append("\n");
            i = i + 1;
        }
        proof {
            assert(self.req.head.headers.entries@.take(n as int)
                =~= self.req.head.headers.entries@);
        }
        s
    }
}

/// One `name=value ` piece per matched parameter.
pub open spec fn render_params(segments: Seq<(String, String)>) -> Seq<char>
    decreases segments.len(),
{
    if segments.len() == 0 {
        Seq::<char>::empty()
    } else {
        render_params(segments.drop_last()) + segments.last().0@ + "="@ + segments.last().1@
            + " "@
    }
}

/// One indented `name: value` line per header.
pub open spec fn render_headers(entries: Seq<(String, String)>) -> Seq<char>
    decreases entries.len(),
{
    if entries.len() == 0 {
        Seq::<char>::empty()
    } else {
        render_headers(entries.drop_last()) + "    "@ + entries.last().0@ + ": "@
            + entries.last().1@ + "\n"@
    }
}

/// The request dump up to and including the params label, when one appears.
pub open spec fn spec_debug_request_prefix(s: ServiceRequest) -> Seq<char> {
    let head = "\nServiceRequest "@ + s.req.head.version.spec_str() + " "@
        + s.req.head.method.spec_str() + ":"@ + s.req.head.uri.path@ + "\n"@;
    let q = if s.req.head.uri.query@.len() > 0 {
        "  query: ?"@ + s.req.head.uri.query@ + "\n"@
    } else {
        Seq::<char>::empty()
    };
    let p = if s.req.params.segments@.len() > 0 {
        "  params: "@
    } else {
        Seq::<char>::empty()
    };
    head + q + p
}

/// The whole request dump.
pub open spec fn spec_debug_request(s: ServiceRequest) -> Seq<char> {
    let params = if s.req.params.segments@.len() > 0 {
        render_params(s.req.params.segments@) + "\n"@
    } else {
        Seq::<char>::empty()
    };
    spec_debug_request_prefix(s) + params + "  headers:\n"@ + render_headers(
        s.req.head.headers.entries@,
    )
}

/// The response envelope: the request handle kept for downstream context,
/// plus the typed response.
pub struct ServiceResponse {
    pub request: HttpRequest,
    pub response: Response,
}

impl ServiceResponse {
    /// Create a service response instance.
    pub fn new(request: HttpRequest, response: Response) -> (r: Self)
        ensures
            r.request == request,
            r.response == response,
    {
        ServiceResponse { request, response }
    }

    /// Create a service response from an error: the response carries the
    /// error's status and its message as the body.
    pub fn from_err(err: Error, request: HttpRequest) -> (r: Self)
        ensures
            r.request == request,
            r.response.head.status == err.status,
            r.response.body == Body::Text(err.message),
    {
        ServiceResponse {
            request,
            response: Response::with_body(err.status, Body::Text(err.message)),
        }
    }

    /// Replace this response by one built from the error, keeping the
    /// request context.
    pub fn error_response(self, err: Error) -> (r: Self)
        ensures
            r.request == self.request,
            r.response.head.status == err.status,
            r.response.body == Body::Text(err.message),
    {
        Self::from_err(err, self.request)
    }

    /// Replace the response, keeping the request context.
    pub fn into_response(self, response: Response) -> (r: Self)
        ensures
            r.request == self.request,
            r.response == response,
    {
        ServiceResponse { request: self.request, response }
    }

    /// The original request.
    pub fn request(&self) -> (r: &HttpRequest)
        ensures
            r == &self.request,
    {
        &self.request
    }

    pub fn response(&self) -> (r: &Response)
        ensures
            r == &self.response,
    {
        &self.response
    }

    /// Mutable access to the response.
    pub fn response_mut(&mut self) -> (r: &mut Response)
        ensures
            *r == old(self).response,
            final(self).response == *final(r),
            final(self).request == old(self).request,
    {
        &mut self.response
    }

    pub fn status(&self) -> (r: u16)
        ensures
            r == self.response.head.status,
    {
        self.response.head.status
    }

    pub fn headers(&self) -> (r: &HeaderMap)
        ensures
            r == &self.response.head.headers,
    {
        &self.response.head.headers
    }

    /// Mutable access to the response headers.
    pub fn headers_mut(&mut self) -> (r: &mut HeaderMap)
        ensures
            *r == old(self).response.head.headers,
            final(self).response.head.headers == *final(r),
            final(self).response.head.status == old(self).response.head.status,
            final(self).response.head.version == old(self).response.head.version,
            final(self).response.head.reason == old(self).response.head.reason,
            final(self).response.body == old(self).response.body,
            final(self).request == old(self).request,
    {
        &mut self.response.head.headers
    }

    /// Replace every value of `name` in the response headers with `value`.
    pub fn insert_header(&mut self, name: String, value: String)
        ensures
            final(self).response.head.headers.entries@ =~= remove_header(
                old(self).response.head.headers.entries@,
                name@,
            ).push((name, value)),
            final(self).request == old(self).request,
            final(self).response.body == old(self).response.body,
            final(self).response.head.status == old(self).response.head.status,
    {
        self.response.insert_header(name, value);
    }

    /// Run a fallible transform over this response. On success the
    /// transformed response stands; on failure the partially-built response
    /// is discarded and a fresh one is rebuilt from the error and the
    /// original request — the outcome is always a well-formed response.
    pub fn checked_expr<F: FnOnce(ServiceResponse) -> Result<
        ServiceResponse,
        (ServiceResponse, Error),
    >>(self, f: F) -> (r: Self)
        requires
            call_requires(f, (self,)),
        ensures
            exists|out: Result<ServiceResponse, (ServiceResponse, Error)>|
                #[trigger] call_ensures(f, (self,), out) && match out {
                    Ok(s2) => r == s2,
                    Err((s2, e)) => r.request == s2.request && r.response.head.status == e.status
                        && r.response.body == Body::Text(e.message),
                },
    {
        match f(self) {
            Ok(s2) => s2,
            Err((s2, e)) => Self::from_err(e, s2.request),
        }
    }

    /// Move the response body out, leaving an empty one.
    pub fn take_body(&mut self) -> (r: Body)
        ensures
            r == old(self).response.body,
            final(self).response.body is Empty,
            final(self).response.head == old(self).response.head,
            final(self).request == old(self).request,
    {
        self.response.take_body()
    }

    /// Transform the response head and body while keeping the request
    /// context.
    pub fn map_body<F: FnOnce(ResponseHead, Body) -> (ResponseHead, Body)>(self, f: F) -> (r: Self)
        requires
            call_requires(f, (self.response.head, self.response.body)),
        ensures
            exists|out: (ResponseHead, Body)|
                #[trigger] call_ensures(f, (self.response.head, self.response.body), out)
                    && r.response.head == out.0 && r.response.body == out.1,
            r.request == self.request,
    {
        let ServiceResponse { request, response } = self;
        let Response { head, body } = response;
        let (head, body) = f(head, body);
        ServiceResponse { request, response: Response { head, body } }
    }

    /// Multi-line human-readable dump of version, status, reason and all
    /// headers, with the body's size; for diagnostics only.
    pub fn debug_string(&self) -> (r: String)
        ensures
            r@ == spec_debug_response(*self),
    {
        let mut s = String::from_str("\nServiceResponse ");
        s.append(self.response.head.version.as_str());
        s.append(" ");
        s.append(text::dec_string(self.response.head.status as u64).as_str());
        match &self.response.head.reason {
            Some(reason) => {
                s.append(reason.as_str());
            },
            None => {},
        }
        s.append("\n  headers:\n");
        let ghost before_headers = s@;
        let n = self.response.head.headers.entries.len();
        let mut i: usize = 0;
        while i < n
            invariant
                n == self.response.head.headers.entries@.len(),
                i <= n,
                s@ == before_headers + render_headers(
                    self.response.head.headers.entries@.take(i as int),
                ),
            decreases n - i,
        {
            proof {
                assert(self.response.head.headers.entries@.take(i + 1).drop_last()
                    =~= self.response.head.headers.entries@.take(i as int));
            }
            s.append("    ");
            s.append(self.response.head.headers.entries[i].0.as_str());
            s.append(": ");
            s.append(self.response.head.headers.entries[i].1.as_str());
            s.append("\n");
            i = i + 1;
        }
        proof {
            assert(self.response.head.headers.entries@.take(n as int)
                =~= self.response.head.headers.entries@);
        }
        s.append("  body: ");
        s.append(text::dec_string(self.response.body.size() as u64).as_str());
        s.append("\n");
        s
    }
}

/// The whole response dump.
pub open spec fn spec_debug_response(s: ServiceResponse) -> Seq<char> {
    let reason = match s.response.head.reason {
        Some(t) => t@,
        None => Seq::<char>::empty(),
    };
    "\nServiceResponse "@ + s.response.head.version.spec_str() + " "@ + text::dec_str(
        s.response.head.status as nat,
    ) + reason + "\n  headers:\n"@ + render_headers(s.response.head.headers.entries@)
        + "  body: "@ + text::dec_str(s.response.body.spec_bytes().len() as usize as nat) + "\n"@
}

impl From<ServiceResponse> for Response {
    /// Drop the request context and keep the bare response.
    fn from(r: ServiceResponse) -> (out: Response)
        ensures
            out == r.response,
    {
        r.response
    }
}

impl vstd::std_specs::convert::FromSpecImpl<ServiceResponse> for Response {
    open spec fn obeys_from_spec() -> bool {
        true
    }

    open spec fn from_spec(r: ServiceResponse) -> Response {
        r.response
    }
}

/// Taking the payload a second time yields the empty stream: over the
/// observable transition, a first take leaves `Empty` behind, and taking
/// from `Empty` returns `Empty` and changes nothing.
pub proof fn lemma_take_payload_twice(s: ServiceRequest)
    ensures
        spec_take_payload(s).1.payload is Empty,
        spec_take_payload(spec_take_payload(s).1).0 is Empty,
        spec_take_payload(spec_take_payload(s).1).1 == spec_take_payload(s).1,
{
}

/// The observable transition of `take_payload`: what it returns and what it
/// leaves behind.
pub open spec fn spec_take_payload(s: ServiceRequest) -> (Payload, ServiceRequest) {
    (s.payload, ServiceRequest { req: s.req, payload: Payload::Empty })
}

/// Deconstructing a service request and reassembling it from the parts
/// restores the original: identical handle (head, parameters, registry) and
/// identical payload.
pub proof fn lemma_parts_round_trip(s: ServiceRequest)
    ensures
        spec_from_parts(spec_into_parts(s)) == s,
{
}

/// The observable deconstruction of `into_parts`.
pub open spec fn spec_into_parts(s: ServiceRequest) -> (HttpRequest, Payload) {
    (s.req, s.payload)
}

/// The observable reassembly of `from_parts`.
pub open spec fn spec_from_parts(parts: (HttpRequest, Payload)) -> ServiceRequest {
    ServiceRequest { req: parts.0, payload: parts.1 }
}

/// A guard list admits a head exactly when every guard in it does; with a
/// method guard among them, a request of another method never matches the
/// registration, while one whose path matches and whose method agrees does.
pub proof fn lemma_method_guard_controls_match(
    reg: ServiceRegistration,
    head: RequestHead,
    i: int,
)
    requires
        reg.guards matches Some(gs) && 0 <= i < gs@.len() && (gs@[i] matches Guard::MethodIs(m)
            && head.method != m),
    ensures
        !spec_matches(reg, head),
{
    let gs = reg.guards.unwrap();
    assert(!gs@[i].spec_check(head));
}

/// Registration carries the guards to the dispatch table: once a builder
/// with a method guard is registered, a request of any other method does not
/// select the registration it produced, whatever its path.
pub proof fn lemma_registered_method_guard_blocks(
    w: WebServiceImpl,
    root: bool,
    r: ServiceRegistration,
    head: RequestHead,
    i: int,
)
    requires
        spec_registers(w, root, r),
        0 <= i < w.guards@.len(),
        w.guards@[i] matches Guard::MethodIs(m) && head.method != m,
    ensures
        !spec_matches(r, head),
{
    lemma_method_guard_controls_match(r, head, i);
}

} // verus!
