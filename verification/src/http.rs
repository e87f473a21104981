//! Plain data model of the HTTP message types the envelope carries: method,
//! version, URI, header multimap, request and response heads, response body.

use vstd::prelude::*;
use crate::text;

verus! {

#[derive(Clone, Copy, PartialEq, Eq, Structural, Debug)]
pub enum Method {
    Get,
    Head,
    Post,
    Put,
    Delete,
    Connect,
    Options,
    Trace,
    Patch,
}

impl Method {
    pub open spec fn spec_str(&self) -> Seq<char> {
        match self {
            Method::Get => "GET"@,
            Method::Head => "HEAD"@,
            Method::Post => "POST"@,
            Method::Put => "PUT"@,
            Method::Delete => "DELETE"@,
            Method::Connect => "CONNECT"@,
            Method::Options => "OPTIONS"@,
            Method::Trace => "TRACE"@,
            Method::Patch => "PATCH"@,
        }
    }

    pub fn as_str(&self) -> (r: &'static str)
        ensures
            r@ == self.spec_str(),
    {
        match self {
            Method::Get => "GET",
            Method::Head => "HEAD",
            Method::Post => "POST",
            Method::Put => "PUT",
            Method::Delete => "DELETE",
            Method::Connect => "CONNECT",
            Method::Options => "OPTIONS",
            Method::Trace => "TRACE",
            Method::Patch => "PATCH",
        }
    }
}

#[derive(Clone, Copy, PartialEq, Eq, Structural, Debug)]
pub enum Version {
    Http10,
    Http11,
    Http2,
    Http3,
}

impl Version {
    pub open spec fn spec_str(&self) -> Seq<char> {
        match self {
            Version::Http10 => "HTTP/1.0"@,
            Version::Http11 => "HTTP/1.1"@,
            Version::Http2 => "HTTP/2.0"@,
            Version::Http3 => "HTTP/3.0"@,
        }
    }

    pub fn as_str(&self) -> (r: &'static str)
        ensures
            r@ == self.spec_str(),
    {
        match self {
            Version::Http10 => "HTTP/1.0",
            Version::Http11 => "HTTP/1.1",
            Version::Http2 => "HTTP/2.0",
            Version::Http3 => "HTTP/3.0",
        }
    }
}

/// Request target, already split by the transport layer.
pub struct Uri {
    pub path: String,
    pub query: String,
}

/// Peer socket address as the transport reports it.
pub struct PeerAddr {
    pub ip: String,
    pub port: u16,
}

/// Ordered header multimap. Names compare case-insensitively; `get` returns
/// the first value inserted under a name, `insert` replaces every earlier
/// value of that name, `append` adds one more.
pub struct HeaderMap {
    pub entries: Vec<(String, String)>,
}

/// The first value among `entries` whose name equals `name` up to ASCII case.
pub open spec fn find_header(entries: Seq<(String, String)>, name: Seq<char>) -> Option<Seq<char>>
    decreases entries.len(),
{
    if entries.len() == 0 {
        None::<Seq<char>>
    } else if text::eq_ascii_ci(entries[0].0@, name) {
        Some(entries[0].1@)
    } else {
        find_header(entries.drop_first(), name)
    }
}

/// `entries` with every entry named `name` (up to ASCII case) removed.
pub open spec fn remove_header(entries: Seq<(String, String)>, name: Seq<char>) -> Seq<
    (String, String),
>
    decreases entries.len(),
{
    if entries.len() == 0 {
        entries
    } else if text::eq_ascii_ci(entries.last().0@, name) {
        remove_header(entries.drop_last(), name)
    } else {
        remove_header(entries.drop_last(), name).push(entries.last())
    }
}

impl HeaderMap {
    /// The value a lookup of `name` sees.
    pub open spec fn spec_get(&self, name: Seq<char>) -> Option<Seq<char>> {
        find_header(self.entries@, name)
    }

    pub open spec fn contains(&self, name: Seq<char>) -> bool {
        self.spec_get(name) is Some
    }

    pub fn new() -> (r: Self)
        ensures
            r.entries@ =~= Seq::<(String, String)>::empty(),
    {
        HeaderMap { entries: Vec::new() }
    }

    /// First value stored under `name`, comparing names without ASCII case.
    pub fn get(&self, name: &str) -> (r: Option<&String>)
        ensures
            match r {
                Some(v) => self.spec_get(name@) == Some(v@),
                None => self.spec_get(name@) is None,
            },
    {
        let n = self.entries.len();
        let mut i: usize = 0;
        proof {
            assert(self.entries@.skip(0) =~= self.entries@);
        }
        while i < n
            invariant
                n == self.entries@.len(),
                i <= n,
                find_header(self.entries@, name@) == find_header(
                    self.entries@.skip(i as int),
                    name@,
                ),
            decreases n - i,
        {
            proof {
                assert(self.entries@.skip(i as int)[0] == self.entries@[i as int]);
                assert(self.entries@.skip(i as int).drop_first() =~= self.entries@.skip(i + 1));
            }
            if text::eq_ignore_ascii_case(self.entries[i].0.as_str(), name) {
                return Some(&self.entries[i].1);
            }
            i = i + 1;
        }
        proof {
            assert(self.entries@.skip(n as int) =~= Seq::<(String, String)>::empty());
        }
        None
    }

    /// Whether any value is stored under `name`.
    pub fn contains_key(&self, name: &str) -> (r: bool)
        ensures
            r == self.contains(name@),
    {
        self.get(name).is_some()
    }

    /// Replace every value of `name` with the single pair `(name, value)`.
    pub fn insert(&mut self, name: String, value: String)
        ensures
            final(self).entries@ =~= remove_header(old(self).entries@, name@).push((name, value)),
    {
        let n = self.entries.len();
        let mut kept: Vec<(String, String)> = Vec::new();
        let mut i: usize = 0;
        while i < n
            invariant
                n == self.entries@.len(),
                i <= n,
                kept@ =~= remove_header(self.entries@.take(i as int), name@),
            decreases n - i,
        {
            proof {
                assert(self.entries@.take(i + 1).drop_last() =~= self.entries@.take(i as int));
                assert(self.entries@.take(i + 1).last() == self.entries@[i as int]);
            }
            let keep = !text::eq_ignore_ascii_case(self.entries[i].0.as_str(), name.as_str());
            if keep {
                let pair = (self.entries[i].0.clone(), self.entries[i].1.clone());
                proof {
                    assert(pair.0 == self.entries@[i as int].0);
                    assert(pair.1 == self.entries@[i as int].1);
                    assert(pair == self.entries@[i as int]);
                }
                kept.push(pair);
                proof {
                    assert(kept@ =~= remove_header(self.entries@.take(i as int), name@).push(
                        self.entries@[i as int],
                    ));
                    assert(kept@ =~= remove_header(self.entries@.take(i + 1), name@));
                }
            } else {
                proof {
                    assert(kept@ =~= remove_header(self.entries@.take(i + 1), name@));
                }
            }
            i = i + 1;
        }
        proof {
            assert(self.entries@.take(n as int) =~= self.entries@);
        }
        kept.push((name, value));
        self.entries = kept;
    }

    /// Add one more value under `name`, keeping the earlier ones.
    pub fn append(&mut self, name: String, value: String)
        ensures
            final(self).entries@ =~= old(self).entries@.push((name, value)),
    {
        self.entries.push((name, value));
    }
}

/// Immutable-once-built description of an incoming request.
pub struct RequestHead {
    pub method: Method,
    pub uri: Uri,
    pub version: Version,
    pub headers: HeaderMap,
    pub peer_addr: Option<PeerAddr>,
}

impl RequestHead {
    /// The essence of the declared Content-Type: the part before any `;`,
    /// trimmed; empty when the header is absent.
    pub open spec fn spec_content_type(&self) -> Seq<char> {
        match self.headers.spec_get("content-type"@) {
            Some(v) => text::essence_of(v),
            None => Seq::<char>::empty(),
        }
    }

    /// The declared charset label, when the Content-Type header carries one.
    pub open spec fn spec_charset(&self) -> Option<Seq<char>> {
        match self.headers.spec_get("content-type"@) {
            Some(v) => text::charset_of(v),
            None => None::<Seq<char>>,
        }
    }

    /// The media type essence declared by the Content-Type header, or the
    /// empty string when the header is absent.
    pub fn content_type(&self) -> (r: &str)
        ensures
            r@ == self.spec_content_type(),
    {
        match self.headers.get("content-type") {
            Some(v) => {
                let vs = v.as_str();
                let semi = text::find_char(vs, ';');
                let prefix = vs.substring_char(0, semi);
                proof {
                    assert(prefix@ =~= vs@.take(text::idx_of(vs@, ';') as int));
                }
                text::trim(prefix)
            },
            None => {
                proof {
                    reveal_strlit("");
                    assert(""@ =~= Seq::<char>::empty());
                }
                ""
            },
        }
    }
}

/// What a response body holds.
pub enum Body {
    Empty,
    Bytes(Vec<u8>),
    Text(String),
}

impl Body {
    /// The bytes the body will write.
    pub open spec fn spec_bytes(&self) -> Seq<u8> {
        match self {
            Body::Empty => Seq::<u8>::empty(),
            Body::Bytes(b) => b@,
            Body::Text(s) => vstd::utf8::encode_utf8(s@),
        }
    }

    pub fn size(&self) -> (r: usize)
        ensures
            r == self.spec_bytes().len() as usize,
    {
        match self {
            Body::Empty => 0,
            Body::Bytes(b) => b.len(),
            Body::Text(s) => s.as_str().len(),
        }
    }
}

/// Immutable-once-built description of an outgoing response.
pub struct ResponseHead {
    pub status: u16,
    pub version: Version,
    pub reason: Option<String>,
    pub headers: HeaderMap,
}

impl ResponseHead {
    pub fn new(status: u16) -> (r: Self)
        ensures
            r.status == status,
            r.version == Version::Http11,
            r.reason is None,
            r.headers.entries@ =~= Seq::<(String, String)>::empty(),
    {
        ResponseHead { status, version: Version::Http11, reason: None, headers: HeaderMap::new() }
    }
}

/// A response: head plus body.
pub struct Response {
    pub head: ResponseHead,
    pub body: Body,
}

impl Response {
    pub fn new(status: u16) -> (r: Self)
        ensures
            r.head.status == status,
            r.head.headers.entries@ =~= Seq::<(String, String)>::empty(),
            r.body is Empty,
    {
        Response { head: ResponseHead::new(status), body: Body::Empty }
    }

    pub fn with_body(status: u16, body: Body) -> (r: Self)
        ensures
            r.head.status == status,
            r.head.headers.entries@ =~= Seq::<(String, String)>::empty(),
            r.body == body,
    {
        Response { head: ResponseHead::new(status), body }
    }

    pub fn status(&self) -> (r: u16)
        ensures
            r == self.head.status,
    {
        self.head.status
    }

    pub fn headers(&self) -> (r: &HeaderMap)
        ensures
            r == &self.head.headers,
    {
        &self.head.headers
    }

    /// Mutable access to the response headers.
    pub fn headers_mut(&mut self) -> (r: &mut HeaderMap)
        ensures
            *r == old(self).head.headers,
            final(self).head.headers == *final(r),
            final(self).head.status == old(self).head.status,
            final(self).head.version == old(self).head.version,
            final(self).head.reason == old(self).head.reason,
            final(self).body == old(self).body,
    {
        &mut self.head.headers
    }

    /// Replace every value of `name` in the response headers with `value`.
    pub fn insert_header(&mut self, name: String, value: String)
        ensures
            final(self).head.headers.entries@ =~= remove_header(
                old(self).head.headers.entries@,
                name@,
            ).push((name, value)),
            final(self).head.status == old(self).head.status,
            final(self).head.version == old(self).head.version,
            final(self).head.reason == old(self).head.reason,
            final(self).body == old(self).body,
    {
        self.head.headers.insert(name, value);
    }

    /// Move the body out, leaving an empty one behind.
    pub fn take_body(&mut self) -> (r: Body)
        ensures
            r == old(self).body,
            final(self).body is Empty,
            final(self).head == old(self).head,
    {
        let mut b = Body::Empty;
        core::mem::swap(&mut self.body, &mut b);
        b
    }
}

} // verus!
