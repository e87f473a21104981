//! The shared request handle: head, matched route parameters, the layered
//! application data registry, and per-request extensions.

use vstd::prelude::*;
use crate::http::{HeaderMap, RequestHead};
use crate::registry::{DataLayer, Registry, SharedMutationError};

verus! {

/// Key of the memoized connection information inside a request's extensions.
pub const CONN_INFO_KEY: u64 = 1;

/// A typed value held in the data registry or in a request's extensions.
/// The original framework erases such values behind a type identity; here
/// the possible payloads are enumerated and a `u64` key plays that role.
pub enum DataValue {
    U32(u32),
    Text(String),
    Form(crate::form::FormConfig),
    ConnInfo(ConnectionInfo),
}

/// Ordered (name, decoded value) pairs produced by the router for one match.
pub struct MatchParams {
    pub segments: Vec<(String, String)>,
}

/// The first value among `segments` stored under exactly `name`.
pub open spec fn find_param(segments: Seq<(String, String)>, name: Seq<char>) -> Option<Seq<char>>
    decreases segments.len(),
{
    if segments.len() == 0 {
        None::<Seq<char>>
    } else if segments[0].0@ == name {
        Some(segments[0].1@)
    } else {
        find_param(segments.drop_first(), name)
    }
}

impl MatchParams {
    pub open spec fn spec_get(&self, name: Seq<char>) -> Option<Seq<char>> {
        find_param(self.segments@, name)
    }

    pub fn new() -> (r: Self)
        ensures
            r.segments@ =~= Seq::<(String, String)>::empty(),
    {
        MatchParams { segments: Vec::new() }
    }

    pub fn is_empty(&self) -> (r: bool)
        ensures
            r == (self.segments@.len() == 0),
    {
        self.segments.len() == 0
    }

    /// Record one more matched segment.
    pub fn push(&mut self, name: String, value: String)
        ensures
            final(self).segments@ =~= old(self).segments@.push((name, value)),
    {
        self.segments.push((name, value));
    }

    /// The decoded value matched for the path variable `name`.
    pub fn get(&self, name: &str) -> (r: Option<&String>)
        ensures
            match r {
                Some(v) => self.spec_get(name@) == Some(v@),
                None => self.spec_get(name@) is None,
            },
    {
        let name_owned = name.to_owned();
        let n = self.segments.len();
        let mut i: usize = 0;
        proof {
            assert(self.segments@.skip(0) =~= self.segments@);
        }
        while i < n
            invariant
                n == self.segments@.len(),
                i <= n,
                name_owned@ == name@,
                find_param(self.segments@, name@) == find_param(
                    self.segments@.skip(i as int),
                    name@,
                ),
            decreases n - i,
        {
            proof {
                assert(self.segments@.skip(i as int)[0] == self.segments@[i as int]);
                assert(self.segments@.skip(i as int).drop_first() =~= self.segments@.skip(i + 1));
            }
            if self.segments[i].0.eq(&name_owned) {
                return Some(&self.segments[i].1);
            }
            i = i + 1;
        }
        proof {
            assert(self.segments@.skip(n as int) =~= Seq::<(String, String)>::empty());
        }
        None
    }
}

/// Reverse map of the application's registered resources: name to pattern.
pub struct ResourceMap {
    pub entries: Vec<(String, String)>,
}

/// Application-level configuration the transport layer was started with.
pub struct AppConfig {
    pub host: String,
    pub secure: bool,
}

/// Client connection information, derived once per request from the head and
/// the application configuration, then memoized in the request's extensions.
pub struct ConnectionInfo {
    pub scheme: String,
    pub host: String,
}

/// What the connection information derives to: the scheme follows the
/// transport's security flag; the host is the Host header when one with a
/// non-empty value is present, else the configured host.
pub open spec fn spec_connection_info(head: RequestHead, config: AppConfig) -> (Seq<char>, Seq<
    char,
>) {
    let scheme = if config.secure {
        "https"@
    } else {
        "http"@
    };
    let host = match head.headers.spec_get("host"@) {
        Some(h) => if h.len() > 0 {
            h
        } else {
            config.host@
        },
        None => config.host@,
    };
    (scheme, host)
}

impl ConnectionInfo {
    pub fn duplicate(&self) -> (r: Self)
        ensures
            r == *self,
    {
        ConnectionInfo { scheme: self.scheme.clone(), host: self.host.clone() }
    }

    /// Derive the connection information from a head and a configuration.
    pub fn derive(head: &RequestHead, config: &AppConfig) -> (r: Self)
        ensures
            (r.scheme@, r.host@) == spec_connection_info(*head, *config),
    {
        let scheme = if config.secure {
            String::from_str("https")
        } else {
            String::from_str("http")
        };
        let host = match head.headers.get("host") {
            Some(h) => {
                if h.as_str().unicode_len() > 0 {
                    h.clone()
                } else {
                    config.host.clone()
                }
            },
            None => config.host.clone(),
        };
        ConnectionInfo { scheme, host }
    }
}

/// Immutable-identity view over the request head, the matched parameters,
/// the layered data registry and the per-request extensions.
pub struct HttpRequest {
    pub head: RequestHead,
    pub params: MatchParams,
    pub app_data: Registry<DataValue>,
    pub extensions: DataLayer<DataValue>,
    pub rmap: ResourceMap,
    pub config: AppConfig,
    pub matched_name: Option<String>,
    pub matched_pattern: Option<String>,
}

impl HttpRequest {
    /// A fresh handle around `head` with empty parameters, registry and
    /// extensions and a default configuration.
    pub fn new(head: RequestHead, config: AppConfig) -> (r: Self)
        ensures
            r.head == head,
            r.config == config,
            r.params.segments@ =~= Seq::<(String, String)>::empty(),
            r.app_data.spec_layers() =~= Seq::<DataLayer<DataValue>>::empty(),
            r.app_data.is_owned(),
            r.extensions.entries@ =~= Seq::<(u64, DataValue)>::empty(),
            r.matched_name is None,
            r.matched_pattern is None,
    {
        HttpRequest {
            head,
            params: MatchParams::new(),
            app_data: Registry::new(),
            extensions: DataLayer::new(),
            rmap: ResourceMap { entries: Vec::new() },
            config,
            matched_name: None,
            matched_pattern: None,
        }
    }

    pub fn head(&self) -> (r: &RequestHead)
        ensures
            r == &self.head,
    {
        &self.head
    }

    pub fn headers(&self) -> (r: &HeaderMap)
        ensures
            r == &self.head.headers,
    {
        &self.head.headers
    }

    pub fn match_info(&self) -> (r: &MatchParams)
        ensures
            r == &self.params,
    {
        &self.params
    }

    /// Name of the matched resource, when the router assigned one.
    pub fn match_name(&self) -> (r: Option<&String>)
        ensures
            match r {
                Some(v) => self.matched_name == Some(*v),
                None => self.matched_name is None,
            },
    {
        self.matched_name.as_ref()
    }

    /// Pattern of the matched resource, when the router recorded one.
    pub fn match_pattern(&self) -> (r: Option<String>)
        ensures
            match r {
                Some(v) => self.matched_pattern matches Some(p) && p == v,
                None => self.matched_pattern is None,
            },
    {
        match &self.matched_pattern {
            Some(p) => Some(p.clone()),
            None => None,
        }
    }

    pub fn resource_map(&self) -> (r: &ResourceMap)
        ensures
            r == &self.rmap,
    {
        &self.rmap
    }

    pub fn app_config(&self) -> (r: &AppConfig)
        ensures
            r == &self.config,
    {
        &self.config
    }

    /// Walk the registry layers innermost to outermost for `key`.
    pub fn app_data(&self, key: u64) -> (r: Option<&DataValue>)
        ensures
            match r {
                Some(v) => self.app_data.spec_lookup(key) == Some(*v),
                None => self.app_data.spec_lookup(key) is None,
            },
    {
        self.app_data.lookup(key)
    }

    /// Append one data layer to this request's registry; fails fast when the
    /// registry is shared.
    pub fn push_data_layer(&mut self, layer: DataLayer<DataValue>) -> (r: Result<
        (),
        SharedMutationError,
    >)
        ensures
            old(self).app_data.is_owned() ==> r is Ok && final(self).app_data.spec_layers()
                =~= old(self).app_data.spec_layers().push(layer),
            !old(self).app_data.is_owned() ==> r is Err && *final(self) == *old(self),
            final(self).head == old(self).head,
            final(self).params == old(self).params,
            final(self).extensions == old(self).extensions,
            final(self).config == old(self).config,
            final(self).rmap == old(self).rmap,
            final(self).matched_name == old(self).matched_name,
            final(self).matched_pattern == old(self).matched_pattern,
    {
        self.app_data.push_layer(layer)
    }

    /// Per-request ad hoc typed storage.
    pub fn extensions(&self) -> (r: &DataLayer<DataValue>)
        ensures
            r == &self.extensions,
    {
        &self.extensions
    }

    /// Per-request ad hoc typed storage, mutable.
    pub fn extensions_mut(&mut self) -> (r: &mut DataLayer<DataValue>)
        ensures
            *r == old(self).extensions,
            final(self).extensions == *final(r),
            final(self).head == old(self).head,
            final(self).params == old(self).params,
            final(self).app_data == old(self).app_data,
    {
        &mut self.extensions
    }

    /// Per-request ad hoc typed storage.
    pub fn get_extension(&self, key: u64) -> (r: Option<&DataValue>)
        ensures
            match r {
                Some(v) => self.extensions.spec_get(key) == Some(*v),
                None => self.extensions.spec_get(key) is None,
            },
    {
        self.extensions.get(key)
    }

    pub fn insert_extension(&mut self, key: u64, value: DataValue)
        ensures
            final(self).extensions.spec_get(key) == Some(value),
            forall|k: u64| k != key ==> final(self).extensions.spec_get(k) == old(
                self,
            ).extensions.spec_get(k),
            final(self).head == old(self).head,
            final(self).params == old(self).params,
            final(self).app_data == old(self).app_data,
    {
        self.extensions.insert(key, value);
    }

    /// Connection information for this request, computed once and memoized
    /// in the extensions; later calls see the cached value.
    pub fn connection_info(&mut self) -> (r: ConnectionInfo)
        ensures
            final(self).head == old(self).head,
            final(self).params == old(self).params,
            final(self).app_data == old(self).app_data,
            match old(self).extensions.spec_get(CONN_INFO_KEY) {
                Some(DataValue::ConnInfo(ci)) => r == ci && *final(self) == *old(self),
                _ => (r.scheme@, r.host@) == spec_connection_info(old(self).head, old(self).config)
                    && final(self).extensions.spec_get(CONN_INFO_KEY) == Some(
                    DataValue::ConnInfo(r),
                ),
            },
    {
        let cached = match self.extensions.get(CONN_INFO_KEY) {
            Some(DataValue::ConnInfo(ci)) => Some(ci.duplicate()),
            _ => None,
        };
        match cached {
            Some(ci) => ci,
            None => {
                let ci = ConnectionInfo::derive(&self.head, &self.config);
                self.extensions.insert(CONN_INFO_KEY, DataValue::ConnInfo(ci.duplicate()));
                ci
            },
        }
    }
}

} // verus!
