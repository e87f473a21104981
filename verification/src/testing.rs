//! Builder of client responses for tests: a response head assembled header
//! by header, finished into a response with an optional buffered payload.

use vstd::prelude::*;
use crate::http::{remove_header, HeaderMap, ResponseHead, Version};
use crate::payload::Payload;

verus! {

/// Client response builder.
pub struct TestResponse {
    pub head: ResponseHead,
    pub payload: Option<Vec<u8>>,
}

impl Default for TestResponse {
    fn default() -> (r: Self)
        ensures
            r.head.status == 200,
            r.head.version == Version::Http11,
            r.head.headers.entries@ =~= Seq::<(String, String)>::empty(),
            r.payload is None,
    {
        TestResponse { head: ResponseHead::new(200), payload: None }
    }
}

impl TestResponse {
    /// A fresh builder with one header already set.
    pub fn with_header(name: String, value: String) -> (r: Self)
        ensures
            r.head.headers.entries@ =~= Seq::<(String, String)>::empty().push((name, value)),
            r.payload is None,
    {
        let s = Self::default();
        s.insert_header(name, value)
    }

    /// Set the HTTP version of this response.
    pub fn version(self, ver: Version) -> (r: Self)
        ensures
            r.head.version == ver,
            r.head.status == self.head.status,
            r.head.headers == self.head.headers,
            r.payload == self.payload,
    {
        let TestResponse { head, payload } = self;
        let ResponseHead { status, version: _, reason, headers } = head;
        TestResponse { head: ResponseHead { status, version: ver, reason, headers }, payload }
    }

    /// Insert a header, replacing earlier values of the same name.
    pub fn insert_header(self, name: String, value: String) -> (r: Self)
        ensures
            r.head.headers.entries@ =~= remove_header(self.head.headers.entries@, name@).push(
                (name, value),
            ),
            r.head.status == self.head.status,
            r.head.version == self.head.version,
            r.payload == self.payload,
    {
        let TestResponse { mut head, payload } = self;
        head.headers.insert(name, value);
        TestResponse { head, payload }
    }

    /// Append a header, keeping earlier values of the same name.
    pub fn append_header(self, name: String, value: String) -> (r: Self)
        ensures
            r.head.headers.entries@ =~= self.head.headers.entries@.push((name, value)),
            r.head.status == self.head.status,
            r.head.version == self.head.version,
            r.payload == self.payload,
    {
        let TestResponse { mut head, payload } = self;
        head.headers.append(name, value);
        TestResponse { head, payload }
    }

    /// Set the response's payload.
    pub fn set_payload(self, data: Vec<u8>) -> (r: Self)
        ensures
            r.payload == Some(data),
            r.head == self.head,
    {
        let TestResponse { head, payload: _ } = self;
        TestResponse { head, payload: Some(data) }
    }

    /// Complete the response: the head as built, and the payload buffered,
    /// or empty when none was set.
    pub fn finish(self) -> (r: ClientResponse)
        ensures
            r.head == self.head,
            match self.payload {
                Some(data) => r.payload.chunk_seq() =~= seq![data@],
                None => r.payload is Empty,
            },
    {
        let TestResponse { head, payload } = self;
        match payload {
            Some(data) => ClientResponse { head, payload: Payload::from_bytes(data) },
            None => ClientResponse { head, payload: Payload::Empty },
        }
    }
}

/// A client-side response: head plus body stream.
pub struct ClientResponse {
    pub head: ResponseHead,
    pub payload: Payload,
}

impl ClientResponse {
    pub fn headers(&self) -> (r: &HeaderMap)
        ensures
            r == &self.head.headers,
    {
        &self.head.headers
    }

    pub fn version(&self) -> (r: Version)
        ensures
            r == self.head.version,
    {
        self.head.version
    }
}

} // verus!
