//! URL encoded form extraction: configuration, the size-limited aggregator
//! over the payload stream, content negotiation, decoding and parsing.
//!
//! Parsing and non-UTF-8 decoding are done by outside crates behind the
//! trusted wrappers at the top of this file; everything around them — the
//! validation of the declared content type, charset and length, the bounded
//! drain, and the dispatch between the decode paths — is verified.

use vstd::prelude::*;
use crate::error::{Error, UrlencodedError};
use crate::http::{Body, RequestHead, Response};
use crate::payload::{concat_all, Payload};
use crate::request::{DataValue, HttpRequest};
use crate::text;

verus! {

/// What parsing a URL encoded byte string into (name, value) pairs yields;
/// the result depends on the bytes alone.
pub uninterp spec fn form_pairs_of(bytes: Seq<u8>) -> Option<Seq<(Seq<char>, Seq<char>)>>;

/// What parsing a URL encoded character string into pairs yields.
pub uninterp spec fn form_pairs_of_text(text: Seq<char>) -> Option<Seq<(Seq<char>, Seq<char>)>>;

/// What decoding `bytes` under the WHATWG encoding named `label` yields,
/// without replacement characters; `None` when some byte cannot be decoded.
pub uninterp spec fn decoded_text(label: Seq<char>, bytes: Seq<u8>) -> Option<Seq<char>>;

/// How the WHATWG label registry classifies `label`: `None` for an unknown
/// label, `Some(true)` for a label of UTF-8, `Some(false)` for another
/// resolvable encoding.
pub uninterp spec fn charset_class(label: Seq<char>) -> Option<bool>;

/// What serializing pairs into a URL encoded string yields.
pub uninterp spec fn form_encoding_of(pairs: Seq<(Seq<char>, Seq<char>)>) -> Option<Seq<char>>;

/// Relies on `encoding_rs::Encoding::for_label_no_replacement` to classify a
/// charset label, and on `encoding_rs::UTF_8` being what the label of UTF-8
/// resolves to; the label "utf-8" is documented to name UTF-8.
#[verifier::external_body]
fn resolve_charset(label: &str) -> (r: Option<bool>)
    ensures
        r == charset_class(label@),
        label@ == "utf-8"@ ==> r == Some(true),
{
    encoding_rs::Encoding::for_label_no_replacement(label.as_bytes())
        .map(|enc| enc == encoding_rs::UTF_8)
}

/// Relies on `encoding_rs::Encoding::for_label_no_replacement` and
/// `Encoding::decode_without_bom_handling_and_without_replacement`: decoding
/// is a function of the label and the bytes alone.
#[verifier::external_body]
fn decode_text(label: &str, bytes: &[u8]) -> (r: Option<String>)
    ensures
        match r {
            Some(s) => decoded_text(label@, bytes@) == Some(s@),
            None => decoded_text(label@, bytes@) is None,
        },
{
    let enc = encoding_rs::Encoding::for_label_no_replacement(label.as_bytes())?;
    enc.decode_without_bom_handling_and_without_replacement(bytes).map(|cow| cow.into_owned())
}

/// Relies on `serde_urlencoded::from_bytes`: parsing pairs out of a URL
/// encoded byte string is a function of the bytes alone.
#[verifier::external_body]
fn parse_form_bytes(body: &[u8]) -> (r: Option<Vec<(String, String)>>)
    ensures
        match r {
            Some(v) => form_pairs_of(body@) == Some(v.deep_view()),
            None => form_pairs_of(body@) is None,
        },
{
    serde_urlencoded::from_bytes::<Vec<(String, String)>>(body).ok()
}

/// Relies on `serde_urlencoded::from_str`: parsing pairs out of a URL
/// encoded character string is a function of the characters alone.
#[verifier::external_body]
fn parse_form_str(body: &str) -> (r: Option<Vec<(String, String)>>)
    ensures
        match r {
            Some(v) => form_pairs_of_text(body@) == Some(v.deep_view()),
            None => form_pairs_of_text(body@) is None,
        },
{
    serde_urlencoded::from_str::<Vec<(String, String)>>(body).ok()
}

/// Relies on `serde_urlencoded::to_string`: serializing pairs is a function
/// of the pairs alone.
#[verifier::external_body]
fn encode_form(pairs: &Vec<(String, String)>) -> (r: Option<String>)
    ensures
        match r {
            Some(s) => form_encoding_of(pairs.deep_view()) == Some(s@),
            None => form_encoding_of(pairs.deep_view()) is None,
        },
{
    serde_urlencoded::to_string(pairs).ok()
}

/// Registry key under which a bare extractor configuration is stored.
pub const FORM_CONFIG_KEY: u64 = 2;

/// Registry key under which a configuration wrapped in shared application
/// data is stored.
pub const FORM_CONFIG_DATA_KEY: u64 = 3;

/// Compiled-in byte limit used when no configuration is registered.
pub const DEFAULT_FORM_LIMIT: usize = 16384;

/// Extractor configuration: the maximum accepted decoded-body size and an
/// optional error handler, named here by an opaque token that the hosting
/// application maps to the actual function.
pub struct FormConfig {
    pub limit: usize,
    pub err_handler: Option<u64>,
}

impl FormConfig {
    /// Set the maximum accepted payload size. The compiled-in default is 16kB.
    pub fn limit(self, limit: usize) -> (r: Self)
        ensures
            r.limit == limit,
            r.err_handler == self.err_handler,
    {
        FormConfig { limit, err_handler: self.err_handler }
    }

    /// Register a custom error handler by its token.
    pub fn error_handler(self, handler: u64) -> (r: Self)
        ensures
            r.limit == self.limit,
            r.err_handler == Some(handler),
    {
        FormConfig { limit: self.limit, err_handler: Some(handler) }
    }
}

impl Default for FormConfig {
    fn default() -> (r: Self)
        ensures
            r.limit == DEFAULT_FORM_LIMIT,
            r.err_handler is None,
    {
        FormConfig { limit: DEFAULT_FORM_LIMIT, err_handler: None }
    }
}

/// URL encoded payload extractor and responder.
#[derive(Debug)]
pub struct Form<T>(pub T);

impl<T> Form<T> {
    /// Unwrap into the inner value.
    pub fn into_inner(self) -> (r: T)
        ensures
            r == self.0,
    {
        self.0
    }
}

/// The text encoding resolved for a body: UTF-8 (declared, defaulted, or via
/// an alias label), or another resolvable encoding kept by its label.
pub enum Charset {
    Utf8,
    Labeled(String),
}

impl Charset {
    /// `None` for UTF-8, else the label to decode under.
    pub open spec fn label_view(&self) -> Option<Seq<char>> {
        match self {
            Charset::Utf8 => None::<Seq<char>>,
            Charset::Labeled(l) => Some(l@),
        }
    }
}

/// Outcome of the header validation stage: the resolved charset (`None`
/// meaning UTF-8) and the declared content length, or the terminal error.
pub open spec fn spec_validate(head: RequestHead) -> Result<
    (Option<Seq<char>>, Option<usize>),
    UrlencodedError,
> {
    if !text::eq_ascii_ci(head.spec_content_type(), "application/x-www-form-urlencoded"@) {
        Err(UrlencodedError::ContentType)
    } else {
        let label = match head.spec_charset() {
            None => Ok(None::<Seq<char>>),
            Some(l) => match charset_class(l) {
                Some(true) => Ok(None::<Seq<char>>),
                Some(false) => Ok(Some(l)),
                None => Err(UrlencodedError::ContentType),
            },
        };
        match label {
            Err(e) => Err(e),
            Ok(label) => match head.headers.spec_get("content-length"@) {
                None => Ok((label, None::<usize>)),
                Some(v) => match text::parsed_usize(v) {
                    Some(l) => Ok((label, Some(l))),
                    None => Err(UrlencodedError::UnknownLength),
                },
            },
        }
    }
}

/// Outcome of draining `chunks` onto `acc` under `limit`: the accumulated
/// bytes, or the size that first exceeded the limit.
pub open spec fn drain_result(chunks: Seq<Seq<u8>>, acc: Seq<u8>, limit: nat) -> Result<
    Seq<u8>,
    nat,
>
    decreases chunks.len(),
{
    if chunks.len() == 0 {
        Ok(acc)
    } else if acc.len() + chunks[0].len() > limit {
        Err(acc.len() + chunks[0].len())
    } else {
        drain_result(chunks.drop_first(), acc + chunks[0], limit)
    }
}

/// Outcome of decoding `body` under the resolved charset and parsing it.
pub open spec fn spec_decode_parse(label: Option<Seq<char>>, body: Seq<u8>) -> Result<
    Seq<(Seq<char>, Seq<char>)>,
    UrlencodedError,
> {
    match label {
        None => match form_pairs_of(body) {
            Some(p) => Ok(p),
            None => Err(UrlencodedError::Parse),
        },
        Some(l) => match decoded_text(l, body) {
            Some(t) => match form_pairs_of_text(t) {
                Some(p) => Ok(p),
                None => Err(UrlencodedError::Parse),
            },
            None => Err(UrlencodedError::Parse),
        },
    }
}

/// The whole pipeline on a request head, the chunks of its body, and a
/// limit: validate, pre-check the declared length, drain, decode, parse.
pub open spec fn spec_extract(head: RequestHead, chunks: Seq<Seq<u8>>, limit: usize) -> Result<
    Seq<(Seq<char>, Seq<char>)>,
    UrlencodedError,
> {
    match spec_validate(head) {
        Err(e) => Err(e),
        Ok((label, length)) => if length matches Some(l) && l > limit {
            Err(UrlencodedError::Overflow { size: length.unwrap(), limit })
        } else {
            match drain_result(chunks, Seq::<u8>::empty(), limit as nat) {
                Err(size) => Err(UrlencodedError::Overflow { size: size as usize, limit }),
                Ok(body) => spec_decode_parse(label, body),
            }
        },
    }
}

/// The draining stage of the aggregator: an accumulation buffer bounded by
/// the configured limit, with the charset kept for the decode stage.
///
/// The synchronous `resolve` drives it over a buffered payload; a hosting
/// runtime drives it chunk by chunk when the payload streams from the
/// transport, mapping a failed read to `UrlencodedError::Payload`.
pub struct BodyDrain {
    pub buf: Vec<u8>,
    pub limit: usize,
    pub charset: Charset,
}

impl BodyDrain {
    /// Append one chunk, or abort with `Overflow` reporting the size the
    /// accumulated body would have reached.
    pub fn push_chunk(&mut self, chunk: &[u8]) -> (r: Result<(), UrlencodedError>)
        requires
            old(self).buf@.len() <= old(self).limit,
            old(self).buf@.len() + chunk@.len() <= usize::MAX,
        ensures
            final(self).limit == old(self).limit,
            final(self).charset == old(self).charset,
            if old(self).buf@.len() + chunk@.len() > old(self).limit {
                r == Err::<(), UrlencodedError>(
                    UrlencodedError::Overflow {
                        size: (old(self).buf@.len() + chunk@.len()) as usize,
                        limit: old(self).limit,
                    },
                ) && *final(self) == *old(self)
            } else {
                r is Ok && final(self).buf@ =~= old(self).buf@ + chunk@
            },
    {
        if chunk.len() > self.limit - self.buf.len() {
            Err(UrlencodedError::Overflow { size: self.buf.len() + chunk.len(), limit: self.limit })
        } else {
            self.buf.extend_from_slice(chunk);
            proof {
                assert(self.buf@ =~= old(self).buf@ + chunk@);
            }
            Ok(())
        }
    }

    /// Decode the accumulated body under the resolved charset and parse it
    /// into (name, value) pairs.
    pub fn finish(self) -> (r: Result<Vec<(String, String)>, UrlencodedError>)
        ensures
            match r {
                Ok(v) => spec_decode_parse(self.charset.label_view(), self.buf@)
                    == Ok::<_, UrlencodedError>(v.deep_view()),
                Err(e) => spec_decode_parse(self.charset.label_view(), self.buf@)
                    == Err::<Seq<(Seq<char>, Seq<char>)>, _>(e),
            },
    {
        let BodyDrain { buf, limit: _, charset } = self;
        match charset {
            Charset::Utf8 => match parse_form_bytes(buf.as_slice()) {
                Some(v) => Ok(v),
                None => Err(UrlencodedError::Parse),
            },
            Charset::Labeled(l) => match decode_text(l.as_str(), buf.as_slice()) {
                Some(t) => match parse_form_str(t.as_str()) {
                    Some(v) => Ok(v),
                    None => Err(UrlencodedError::Parse),
                },
                None => Err(UrlencodedError::Parse),
            },
        }
    }
}

/// Future-like aggregator that resolves to the parsed pairs of a URL encoded
/// payload, or to a terminal error.
pub struct UrlEncoded {
    pub stream: Option<Payload>,
    pub limit: usize,
    pub length: Option<usize>,
    pub charset: Charset,
    pub err: Option<UrlencodedError>,
}

impl UrlEncoded {
    /// The chunks still to be drained.
    pub open spec fn spec_chunks(&self) -> Seq<Seq<u8>> {
        match self.stream {
            Some(p) => p.chunk_seq(),
            None => Seq::<Seq<u8>>::empty(),
        }
    }

    /// What this aggregator resolves to.
    pub open spec fn spec_resolve(&self) -> Result<Seq<(Seq<char>, Seq<char>)>, UrlencodedError> {
        match self.err {
            Some(e) => Err(e),
            None => if self.length matches Some(l) && l > self.limit {
                Err(
                    UrlencodedError::Overflow {
                        size: self.length.unwrap(),
                        limit: self.limit,
                    },
                )
            } else {
                match drain_result(self.spec_chunks(), Seq::<u8>::empty(), self.limit as nat) {
                    Err(size) => Err(
                        UrlencodedError::Overflow { size: size as usize, limit: self.limit },
                    ),
                    Ok(body) => spec_decode_parse(self.charset.label_view(), body),
                }
            },
        }
    }

    /// Whether the remaining stream is transport-driven, so that a
    /// synchronous resolution cannot pull its chunks.
    pub open spec fn is_streaming(&self) -> bool {
        self.stream matches Some(p) && p.is_streaming()
    }

    fn err_state(e: UrlencodedError) -> (r: Self)
        ensures
            r.err == Some(e),
            r.stream is None,
            r.length is None,
            r.charset is Utf8,
            r.limit == 32768,
    {
        UrlEncoded { stream: None, limit: 32768, length: None, charset: Charset::Utf8, err: Some(e) }
    }

    /// Create a new aggregator for a request's payload.
    ///
    /// Validates the declared content type, resolves the charset (UTF-8 when
    /// none is declared), and records the declared content length. On a
    /// validation error the payload is left untouched; otherwise it is taken
    /// and the caller's slot is left empty.
    pub fn new(req: &HttpRequest, payload: &mut Payload) -> (r: Self)
        ensures
            r.limit == 32768,
            match spec_validate(req.head) {
                Err(e) => r.err == Some(e) && r.stream is None && *final(payload) == *old(payload),
                Ok((label, length)) => r.err is None && r.charset.label_view() == label && r.length
                    == length && r.stream == Some(*old(payload)) && *final(payload) is Empty,
            },
    {
        let ct = req.head.content_type();
        if !text::eq_ignore_ascii_case(ct, "application/x-www-form-urlencoded") {
            return Self::err_state(UrlencodedError::ContentType);
        }
        let charset = match charset_param_of_head(&req.head) {
            None => Charset::Utf8,
            Some(label) => match resolve_charset(label.as_str()) {
                Some(true) => Charset::Utf8,
                Some(false) => Charset::Labeled(label),
                None => {
                    return Self::err_state(UrlencodedError::ContentType);
                },
            },
        };
        let length = match req.head.headers.get("content-length") {
            None => None,
            Some(v) => match text::parse_usize(v.as_str()) {
                Some(l) => Some(l),
                None => {
                    return Self::err_state(UrlencodedError::UnknownLength);
                },
            },
        };
        UrlEncoded { stream: Some(payload.take()), limit: 32768, length, charset, err: None }
    }

    /// Set the maximum accepted payload size.
    pub fn limit(self, limit: usize) -> (r: Self)
        ensures
            r.limit == limit,
            r.stream == self.stream,
            r.length == self.length,
            r.charset == self.charset,
            r.err == self.err,
    {
        UrlEncoded { stream: self.stream, limit, length: self.length, charset: self.charset, err: self.err }
    }

    /// Resolve the aggregator over an already-buffered payload: pre-check the
    /// declared length, drain the chunks under the limit, decode and parse.
    pub fn resolve(self) -> (r: Result<Vec<(String, String)>, UrlencodedError>)
        requires
            !self.is_streaming(),
            self.limit + concat_all(self.spec_chunks()).len() <= usize::MAX,
        ensures
            match r {
                Ok(v) => self.spec_resolve() == Ok::<_, UrlencodedError>(v.deep_view()),
                Err(e) => self.spec_resolve() == Err::<Seq<(Seq<char>, Seq<char>)>, _>(e),
            },
    {
        let UrlEncoded { stream, limit, length, charset, err } = self;
        if let Some(e) = err {
            return Err(e);
        }
        if let Some(l) = length {
            if l > limit {
                return Err(UrlencodedError::Overflow { size: l, limit });
            }
        }
        let mut payload = match stream {
            Some(p) => p,
            None => Payload::Empty,
        };
        let ghost chunks0 = payload.chunk_seq();
        let mut body: Vec<u8> = Vec::new();
        let mut done = false;
        proof {
            assert(body@ =~= Seq::<u8>::empty());
        }
        while !done
            invariant
                !payload.is_streaming(),
                chunks0 == self.spec_chunks(),
                self.err is None,
                limit == self.limit,
                charset == self.charset,
                !(self.length matches Some(l) && l > self.limit),
                body@.len() <= limit,
                limit + concat_all(payload.chunk_seq()).len() <= usize::MAX,
                drain_result(chunks0, Seq::<u8>::empty(), limit as nat) == drain_result(
                    payload.chunk_seq(),
                    body@,
                    limit as nat,
                ),
                done ==> payload.chunk_seq().len() == 0,
            decreases payload.chunk_seq().len() + (if done { 0int } else { 1int }),
        {
            let ghost cs = payload.chunk_seq();
            match payload.next_chunk() {
                None => {
                    done = true;
                },
                Some(chunk) => {
                    proof {
                        assert(concat_all(cs) =~= cs[0] + concat_all(cs.drop_first()));
                        assert(chunk@.len() <= concat_all(cs).len());
                    }
                    if chunk.len() > limit - body.len() {
                        proof {
                            assert(drain_result(cs, body@, limit as nat) == Err::<Seq<u8>, nat>(
                                (body@.len() + chunk@.len()) as nat,
                            ));
                            assert(chunks0 == self.spec_chunks());
                            assert(self.spec_resolve() == Err::<
                                Seq<(Seq<char>, Seq<char>)>,
                                UrlencodedError,
                            >(
                                UrlencodedError::Overflow {
                                    size: (body@.len() + chunk@.len()) as usize,
                                    limit,
                                },
                            ));
                        }
                        return Err(
                            UrlencodedError::Overflow { size: body.len() + chunk.len(), limit },
                        );
                    }
                    let ghost body0 = body@;
                    body.extend_from_slice(chunk.as_slice());
                    proof {
                        assert(body@ =~= body0 + chunk@);
                        assert(drain_result(cs, body0, limit as nat) == drain_result(
                            payload.chunk_seq(),
                            body@,
                            limit as nat,
                        ));
                    }
                },
            }
        }
        proof {
            assert(drain_result(payload.chunk_seq(), body@, limit as nat) == Ok::<Seq<u8>, nat>(
                body@,
            ));
        }
        let drain = BodyDrain { buf: body, limit, charset };
        drain.finish()
    }

    /// Move past the validation stage: fail on a recorded validation error or
    /// on a declared length above the limit, else hand out the empty drain
    /// buffer and the payload whose chunks are to be pushed through it.
    pub fn start(self) -> (r: Result<(BodyDrain, Payload), UrlencodedError>)
        ensures
            match self.err {
                Some(e0) => r == Err::<(BodyDrain, Payload), UrlencodedError>(e0),
                None => if self.length matches Some(l) && l > self.limit {
                    r == Err::<(BodyDrain, Payload), UrlencodedError>(
                        UrlencodedError::Overflow {
                            size: self.length.unwrap(),
                            limit: self.limit,
                        },
                    )
                } else {
                    r matches Ok(dp) && dp.0.buf@ =~= Seq::<u8>::empty() && dp.0.limit
                        == self.limit && dp.0.charset == self.charset && dp.1.chunk_seq()
                        =~= self.spec_chunks() && (dp.1.is_streaming() == self.is_streaming())
                },
            },
    {
        let UrlEncoded { stream, limit, length, charset, err } = self;
        if let Some(e) = err {
            return Err(e);
        }
        if let Some(l) = length {
            if l > limit {
                return Err(UrlencodedError::Overflow { size: l, limit });
            }
        }
        let payload = match stream {
            Some(p) => p,
            None => Payload::Empty,
        };
        Ok((BodyDrain { buf: Vec::new(), limit, charset }, payload))
    }
}

/// Failed extraction, ready for the framework's conversion into a response.
#[derive(Debug)]
pub enum FormError {
    /// The configuration registered an error handler; the hosting
    /// application applies the function behind `handler` to `err`.
    Handled { handler: u64, err: UrlencodedError },
    /// No handler registered: the default lossless conversion.
    Plain(Error),
}

/// The extractor configuration resolved for a request: the byte limit and
/// the optional error-handler token. A bare configuration is looked up
/// first, then one wrapped as shared application data, innermost layer
/// first; with neither, the compiled-in default limit applies.
pub open spec fn spec_form_config(req: HttpRequest) -> (usize, Option<u64>) {
    match req.app_data.spec_lookup(FORM_CONFIG_KEY) {
        Some(DataValue::Form(c)) => (c.limit, c.err_handler),
        _ => match req.app_data.spec_lookup(FORM_CONFIG_DATA_KEY) {
            Some(DataValue::Form(c)) => (c.limit, c.err_handler),
            _ => (DEFAULT_FORM_LIMIT, None::<u64>),
        },
    }
}

impl Form<Vec<(String, String)>> {
    /// Extract a URL encoded form from a request whose body is already
    /// buffered: resolve the configuration from the data registry, run the
    /// aggregator under its limit, and route a failure through the
    /// registered error handler, or through the default conversion when
    /// none is registered. The payload is consumed unless validation fails.
    pub fn from_request(req: &HttpRequest, payload: &mut Payload) -> (r: Result<
        Form<Vec<(String, String)>>,
        FormError,
    >)
        requires
            !old(payload).is_streaming(),
            spec_form_config(*req).0 + concat_all(old(payload).chunk_seq()).len() <= usize::MAX,
        ensures
            match spec_extract(req.head, old(payload).chunk_seq(), spec_form_config(*req).0) {
                Ok(pairs) => r matches Ok(f) && f.0.deep_view() == pairs,
                Err(e) => match spec_form_config(*req).1 {
                    Some(h) => r == Err::<Form<Vec<(String, String)>>, FormError>(
                        FormError::Handled { handler: h, err: e },
                    ),
                    None => r matches Err(FormError::Plain(err)) && err.status == e.spec_status()
                        && err.message@ == e.spec_message(),
                },
            },
            match spec_validate(req.head) {
                Err(_) => *final(payload) == *old(payload),
                Ok(_) => *final(payload) is Empty,
            },
    {
        let config: (usize, Option<u64>) = match req.app_data(FORM_CONFIG_KEY) {
            Some(DataValue::Form(c)) => (c.limit, c.err_handler),
            _ => match req.app_data(FORM_CONFIG_DATA_KEY) {
                Some(DataValue::Form(c)) => (c.limit, c.err_handler),
                _ => (DEFAULT_FORM_LIMIT, None),
            },
        };
        let (limit, handler) = config;
        let ue = UrlEncoded::new(req, payload).limit(limit);
        proof {
            lemma_resolve_is_extract(ue, req.head, old(payload).chunk_seq(), limit);
        }
        match ue.resolve() {
            Ok(v) => Ok(Form(v)),
            Err(e) => match handler {
                Some(h) => Err(FormError::Handled { handler: h, err: e }),
                None => Err(FormError::Plain(e.to_error())),
            },
        }
    }

    /// Serialize the pairs into a URL encoded `200 OK` response with the
    /// matching content type; a serialization failure yields a plain `500`.
    pub fn respond_to(&self) -> (r: Response)
        ensures
            match form_encoding_of(self.0.deep_view()) {
                Some(body) => r.head.status == 200 && r.head.headers.spec_get("content-type"@)
                    == Some("application/x-www-form-urlencoded"@) && (r.body matches Body::Text(s)
                    && s@ == body),
                None => r.head.status == 500,
            },
    {
        match encode_form(&self.0) {
            Some(body) => {
                let mut r = Response::with_body(200, Body::Text(body));
                r.insert_header(
                    String::from_str("content-type"),
                    String::from_str("application/x-www-form-urlencoded"),
                );
                proof {
                    assert(r.head.headers.entries@.len() == 1);
                    assert(text::eq_ascii_ci(
                        r.head.headers.entries@[0].0@,
                        "content-type"@,
                    ));
                }
                r
            },
            None => Response::new(500),
        }
    }
}

/// An aggregator built from a request head and a payload, then given
/// `limit`, resolves to what the pipeline spec says for that head, the
/// payload's chunks and that limit.
proof fn lemma_resolve_is_extract(
    ue: UrlEncoded,
    head: RequestHead,
    chunks: Seq<Seq<u8>>,
    limit: usize,
)
    requires
        ue.limit == limit,
        match spec_validate(head) {
            Err(e) => ue.err == Some(e) && ue.stream is None,
            Ok((label, length)) => ue.err is None && ue.charset.label_view() == label && ue.length
                == length && ue.spec_chunks() == chunks,
        },
    ensures
        ue.spec_resolve() == spec_extract(head, chunks, limit),
{
}

/// The charset label declared by the request's Content-Type header, if any.
fn charset_param_of_head(head: &RequestHead) -> (r: Option<String>)
    ensures
        match r {
            Some(s) => head.spec_charset() == Some(s@),
            None => head.spec_charset() is None,
        },
{
    match head.headers.get("content-type") {
        Some(v) => text::charset_param(v.as_str()),
        None => None,
    }
}

/// Draining chunks whose total stays within the limit accumulates them all.
proof fn lemma_drain_within_limit(chunks: Seq<Seq<u8>>, acc: Seq<u8>, limit: nat)
    requires
        acc.len() + concat_all(chunks).len() <= limit,
    ensures
        drain_result(chunks, acc, limit) == Ok::<Seq<u8>, nat>(acc + concat_all(chunks)),
    decreases chunks.len(),
{
    if chunks.len() == 0 {
        assert(acc + concat_all(chunks) =~= acc);
    } else {
        assert(concat_all(chunks) == chunks[0] + concat_all(chunks.drop_first()));
        lemma_drain_within_limit(chunks.drop_first(), acc + chunks[0], limit);
        assert((acc + chunks[0]) + concat_all(chunks.drop_first()) =~= acc + concat_all(chunks));
    }
}

/// For a well-formed request — the declared content type matches, the
/// charset resolves, any declared length parses and stays within the limit —
/// whose body also stays within the limit, extraction yields exactly what
/// decoding and parsing the full body directly yields: a successfully parsed
/// value equals the value parsed from the concatenation of all chunks.
pub proof fn lemma_extract_parses_full_body(head: RequestHead, chunks: Seq<Seq<u8>>, limit: usize)
    requires
        spec_validate(head) matches Ok(v) && (v.1 matches Some(l) ==> l <= limit),
        concat_all(chunks).len() <= limit,
    ensures
        spec_extract(head, chunks, limit) == spec_decode_parse(
            spec_validate(head)->Ok_0.0,
            concat_all(chunks),
        ),
{
    lemma_drain_within_limit(chunks, Seq::<u8>::empty(), limit as nat);
    assert(Seq::<u8>::empty() + concat_all(chunks) =~= concat_all(chunks));
}

/// A declared Content-Length above the limit fails with `Overflow` carrying
/// the declared size and the limit, and the outcome is the same for any two
/// body streams: no chunk is read before the failure.
pub proof fn lemma_declared_overflow_fails_early(
    head: RequestHead,
    chunks1: Seq<Seq<u8>>,
    chunks2: Seq<Seq<u8>>,
    limit: usize,
)
    requires
        spec_validate(head) matches Ok(v) && v.1 matches Some(l) && l > limit,
    ensures
        spec_extract(head, chunks1, limit) == Err::<Seq<(Seq<char>, Seq<char>)>, UrlencodedError>(
            UrlencodedError::Overflow { size: spec_validate(head)->Ok_0.1.unwrap(), limit },
        ),
        spec_extract(head, chunks1, limit) == spec_extract(head, chunks2, limit),
{
}

/// Draining chunks whose total exceeds the limit aborts at the first chunk
/// that pushes the running total over it, reporting that total.
proof fn lemma_drain_overflow(chunks: Seq<Seq<u8>>, acc: Seq<u8>, limit: nat)
    requires
        acc.len() + concat_all(chunks).len() > limit,
        acc.len() <= limit,
    ensures
        exists|k: int|
            #![trigger chunks.take(k)]
            0 <= k < chunks.len() && acc.len() + concat_all(chunks.take(k)).len() <= limit
                && acc.len() + concat_all(chunks.take(k + 1)).len() > limit && drain_result(
                chunks,
                acc,
                limit,
            ) == Err::<Seq<u8>, nat>(
                (acc.len() + concat_all(chunks.take(k + 1)).len()) as nat,
            ),
    decreases chunks.len(),
{
    if chunks.len() == 0 {
        assert(concat_all(chunks) =~= Seq::<u8>::empty());
    } else {
        assert(concat_all(chunks) == chunks[0] + concat_all(chunks.drop_first()));
        if acc.len() + chunks[0].len() > limit {
            let k: int = 0;
            assert(concat_all(chunks.take(0)) =~= Seq::<u8>::empty()) by {
                assert(chunks.take(0) =~= Seq::<Seq<u8>>::empty());
            }
            assert(chunks.take(1) =~= seq![chunks[0]]);
            assert(concat_all(chunks.take(1)) =~= chunks[0]) by {
                assert(chunks.take(1).drop_first() =~= Seq::<Seq<u8>>::empty());
            }
            assert(0 <= k < chunks.len() && acc.len() + concat_all(chunks.take(k)).len() <= limit
                && acc.len() + concat_all(chunks.take(k + 1)).len() > limit && drain_result(
                chunks,
                acc,
                limit,
            ) == Err::<Seq<u8>, nat>((acc.len() + concat_all(chunks.take(k + 1)).len()) as nat));
        } else {
            lemma_drain_overflow(chunks.drop_first(), acc + chunks[0], limit);
            let k0 = choose|k0: int|
                #![trigger chunks.drop_first().take(k0)]
                0 <= k0 < chunks.drop_first().len() && (acc + chunks[0]).len() + concat_all(
                    chunks.drop_first().take(k0),
                ).len() <= limit && (acc + chunks[0]).len() + concat_all(
                    chunks.drop_first().take(k0 + 1),
                ).len() > limit && drain_result(chunks.drop_first(), acc + chunks[0], limit)
                    == Err::<Seq<u8>, nat>(
                    ((acc + chunks[0]).len() + concat_all(chunks.drop_first().take(k0 + 1)).len())
                        as nat,
                );
            let k = k0 + 1;
            assert(chunks.take(k).drop_first() =~= chunks.drop_first().take(k0));
            assert(concat_all(chunks.take(k)) == chunks[0] + concat_all(
                chunks.drop_first().take(k0),
            )) by {
                assert(chunks.take(k)[0] == chunks[0]);
            }
            assert(chunks.take(k + 1).drop_first() =~= chunks.drop_first().take(k0 + 1));
            assert(concat_all(chunks.take(k + 1)) == chunks[0] + concat_all(
                chunks.drop_first().take(k0 + 1),
            )) by {
                assert(chunks.take(k + 1)[0] == chunks[0]);
            }
            assert(0 <= k < chunks.len() && acc.len() + concat_all(chunks.take(k)).len() <= limit
                && acc.len() + concat_all(chunks.take(k + 1)).len() > limit && drain_result(
                chunks,
                acc,
                limit,
            ) == Err::<Seq<u8>, nat>((acc.len() + concat_all(chunks.take(k + 1)).len()) as nat));
        }
    }
}

/// When the body's running total exceeds the limit although the request
/// declared no length, or an understated one within the limit, extraction
/// fails with `Overflow` reporting the true accumulated size: the length of
/// the chunks read up to and including the first chunk that pushed the
/// total over the limit.
pub proof fn lemma_running_total_overflow(head: RequestHead, chunks: Seq<Seq<u8>>, limit: usize)
    requires
        spec_validate(head) matches Ok(v) && (v.1 matches Some(l) ==> l <= limit),
        concat_all(chunks).len() > limit,
        concat_all(chunks).len() <= usize::MAX,
    ensures
        exists|k: int|
            #![trigger chunks.take(k)]
            0 <= k < chunks.len() && concat_all(chunks.take(k)).len() <= limit && concat_all(
                chunks.take(k + 1),
            ).len() > limit && spec_extract(head, chunks, limit) == Err::<
                Seq<(Seq<char>, Seq<char>)>,
                UrlencodedError,
            >(
                UrlencodedError::Overflow {
                    size: concat_all(chunks.take(k + 1)).len() as usize,
                    limit,
                },
            ),
{
    lemma_drain_overflow(chunks, Seq::<u8>::empty(), limit as nat);
    let k = choose|k: int|
        #![trigger chunks.take(k)]
        0 <= k < chunks.len() && concat_all(chunks.take(k)).len() <= limit && concat_all(
            chunks.take(k + 1),
        ).len() > limit && drain_result(chunks, Seq::<u8>::empty(), limit as nat) == Err::<
            Seq<u8>,
            nat,
        >(concat_all(chunks.take(k + 1)).len() as nat);
    assert(concat_all(chunks.take(k + 1)).len() <= concat_all(chunks).len()) by {
        lemma_concat_take_le(chunks, k + 1);
    }
    assert(0 <= k < chunks.len() && concat_all(chunks.take(k)).len() <= limit && concat_all(
        chunks.take(k + 1),
    ).len() > limit && spec_extract(head, chunks, limit) == Err::<
        Seq<(Seq<char>, Seq<char>)>,
        UrlencodedError,
    >(UrlencodedError::Overflow { size: concat_all(chunks.take(k + 1)).len() as usize, limit }));
}

/// A prefix of the chunks carries no more bytes than all of them.
proof fn lemma_concat_take_le(chunks: Seq<Seq<u8>>, i: int)
    requires
        0 <= i <= chunks.len(),
    ensures
        concat_all(chunks.take(i)).len() <= concat_all(chunks).len(),
    decreases chunks.len(),
{
    if i == 0 {
        assert(chunks.take(0) =~= Seq::<Seq<u8>>::empty());
    } else {
        assert(concat_all(chunks) == chunks[0] + concat_all(chunks.drop_first()));
        assert(chunks.take(i)[0] == chunks[0]);
        assert(concat_all(chunks.take(i)) == chunks[0] + concat_all(chunks.take(i).drop_first()));
        assert(chunks.take(i).drop_first() =~= chunks.drop_first().take(i - 1));
        lemma_concat_take_le(chunks.drop_first(), i - 1);
    }
}

} // verus!
