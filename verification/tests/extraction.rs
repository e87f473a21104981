use webenvelope::error::UrlencodedError;
use webenvelope::form::{Form, FormConfig, FormError, UrlEncoded, FORM_CONFIG_DATA_KEY, FORM_CONFIG_KEY};
use webenvelope::http::{Body, HeaderMap, Method, RequestHead, Uri, Version};
use webenvelope::payload::Payload;
use webenvelope::registry::DataLayer;
use webenvelope::request::{AppConfig, DataValue, HttpRequest};

fn make_head(headers: Vec<(&str, &str)>) -> RequestHead {
    let mut map = HeaderMap::new();
    for (name, value) in headers {
        map.append(name.to_string(), value.to_string());
    }
    RequestHead {
        method: Method::Post,
        uri: Uri { path: "/".to_string(), query: String::new() },
        version: Version::Http11,
        headers: map,
        peer_addr: None,
    }
}

fn make_request(headers: Vec<(&str, &str)>) -> HttpRequest {
    let config = AppConfig { host: "localhost:8080".to_string(), secure: false };
    HttpRequest::new(make_head(headers), config)
}

fn pairs(form: Form<Vec<(String, String)>>) -> Vec<(String, String)> {
    form.into_inner()
}

#[test]
fn test_form() {
    let req = make_request(vec![
        ("content-type", "application/x-www-form-urlencoded"),
        ("content-length", "11"),
    ]);
    let mut pl = Payload::from_bytes(b"hello=world&counter=123".to_vec());

    let form = Form::from_request(&req, &mut pl).unwrap();
    let got = pairs(form);
    assert_eq!(
        got,
        vec![
            ("hello".to_string(), "world".to_string()),
            ("counter".to_string(), "123".to_string()),
        ]
    );
    assert!(matches!(pl, Payload::Empty));
}

#[test]
fn test_urlencoded_error() {
    let req = make_request(vec![
        ("content-type", "application/x-www-form-urlencoded"),
        ("content-length", "xxxx"),
    ]);
    let mut pl = Payload::Empty;
    let info = UrlEncoded::new(&req, &mut pl).resolve();
    assert!(matches!(info.err().unwrap(), UrlencodedError::UnknownLength));

    let req = make_request(vec![
        ("content-type", "application/x-www-form-urlencoded"),
        ("content-length", "1000000"),
    ]);
    let mut pl = Payload::Empty;
    let info = UrlEncoded::new(&req, &mut pl).resolve();
    assert!(matches!(
        info.err().unwrap(),
        UrlencodedError::Overflow { size: 1000000, limit: 32768 }
    ));

    let req = make_request(vec![
        ("content-type", "text/plain"),
        ("content-length", "10"),
    ]);
    let mut pl = Payload::Empty;
    let info = UrlEncoded::new(&req, &mut pl).resolve();
    assert!(matches!(info.err().unwrap(), UrlencodedError::ContentType));
}

#[test]
fn test_urlencoded() {
    let req = make_request(vec![
        ("content-type", "application/x-www-form-urlencoded"),
        ("content-length", "11"),
    ]);
    let mut pl = Payload::from_bytes(b"hello=world&counter=123".to_vec());
    let info = UrlEncoded::new(&req, &mut pl).resolve().unwrap();
    assert_eq!(
        info,
        vec![
            ("hello".to_string(), "world".to_string()),
            ("counter".to_string(), "123".to_string()),
        ]
    );

    let req = make_request(vec![
        ("content-type", "application/x-www-form-urlencoded; charset=utf-8"),
        ("content-length", "11"),
    ]);
    let mut pl = Payload::from_bytes(b"hello=world&counter=123".to_vec());
    let info = UrlEncoded::new(&req, &mut pl).resolve().unwrap();
    assert_eq!(
        info,
        vec![
            ("hello".to_string(), "world".to_string()),
            ("counter".to_string(), "123".to_string()),
        ]
    );
}

#[test]
fn test_responder() {
    let form = Form(vec![
        ("hello".to_string(), "world".to_string()),
        ("counter".to_string(), "123".to_string()),
    ]);
    let resp = form.respond_to();
    assert_eq!(resp.status(), 200);
    assert_eq!(
        resp.headers().get("content-type").unwrap().as_str(),
        "application/x-www-form-urlencoded"
    );
    match &resp.body {
        Body::Text(s) => assert_eq!(s.as_str(), "hello=world&counter=123"),
        _ => panic!("expected a text body"),
    }
}

#[test]
fn test_with_config_in_data_wrapper() {
    let mut req = make_request(vec![
        ("content-type", "application/x-www-form-urlencoded"),
        ("content-length", "20"),
    ]);
    let mut layer = DataLayer::new();
    layer.insert(
        FORM_CONFIG_DATA_KEY,
        DataValue::Form(FormConfig::default().limit(10)),
    );
    req.push_data_layer(layer).unwrap();
    let mut pl = Payload::from_bytes(b"hello=test&counter=4".to_vec());

    let s = Form::from_request(&req, &mut pl);
    assert!(s.is_err());

    match s.err().unwrap() {
        FormError::Plain(err) => {
            assert!(err.message.starts_with("URL encoded payload is larger"));
            assert_eq!(err.status, 413);
        },
        FormError::Handled { .. } => panic!("no handler was registered"),
    }
}

#[test]
fn test_bare_config_precedes_wrapped() {
    let mut req = make_request(vec![("content-type", "application/x-www-form-urlencoded")]);
    let mut wrapped = DataLayer::new();
    wrapped.insert(FORM_CONFIG_DATA_KEY, DataValue::Form(FormConfig::default().limit(4)));
    req.push_data_layer(wrapped).unwrap();
    let mut bare = DataLayer::new();
    bare.insert(FORM_CONFIG_KEY, DataValue::Form(FormConfig::default()));
    req.push_data_layer(bare).unwrap();

    // The bare configuration (default limit) wins over the wrapped one, so a
    // body longer than four bytes still parses.
    let mut pl = Payload::from_bytes(b"hello=world".to_vec());
    let form = Form::from_request(&req, &mut pl).unwrap();
    assert_eq!(pairs(form), vec![("hello".to_string(), "world".to_string())]);
}

#[test]
fn test_error_handler_token_routes_failure() {
    let mut req = make_request(vec![("content-type", "text/plain")]);
    let mut layer = DataLayer::new();
    layer.insert(
        FORM_CONFIG_KEY,
        DataValue::Form(FormConfig::default().error_handler(7)),
    );
    req.push_data_layer(layer).unwrap();
    let mut pl = Payload::Empty;

    match Form::from_request(&req, &mut pl).err().unwrap() {
        FormError::Handled { handler, err } => {
            assert_eq!(handler, 7);
            assert!(matches!(err, UrlencodedError::ContentType));
        },
        FormError::Plain(_) => panic!("a handler token was registered"),
    }
}

#[test]
fn test_running_total_overflow_reports_accumulated_size() {
    // No Content-Length declared; the second chunk pushes the total past the
    // limit, and the reported size is the accumulated one.
    let req = make_request(vec![("content-type", "application/x-www-form-urlencoded")]);
    let mut pl = Payload::Buffered {
        chunks: vec![vec![b'a'; 6], vec![b'b'; 6]],
        cursor: 0,
    };
    let out = UrlEncoded::new(&req, &mut pl).limit(10).resolve();
    assert!(matches!(
        out.err().unwrap(),
        UrlencodedError::Overflow { size: 12, limit: 10 }
    ));
}

#[test]
fn test_declared_overflow_with_limit_zero() {
    let req = make_request(vec![
        ("content-type", "application/x-www-form-urlencoded"),
        ("content-length", "1000000"),
    ]);
    let mut pl = Payload::from_bytes(b"hello=world".to_vec());
    let out = UrlEncoded::new(&req, &mut pl).limit(0).resolve();
    assert!(matches!(
        out.err().unwrap(),
        UrlencodedError::Overflow { size: 1000000, limit: 0 }
    ));
}

#[test]
fn test_unknown_charset_is_content_type_error() {
    let req = make_request(vec![(
        "content-type",
        "application/x-www-form-urlencoded; charset=no-such-encoding",
    )]);
    let mut pl = Payload::from_bytes(b"hello=world".to_vec());
    let out = UrlEncoded::new(&req, &mut pl).resolve();
    assert!(matches!(out.err().unwrap(), UrlencodedError::ContentType));
}

#[test]
fn test_non_utf8_charset_decodes_before_parsing() {
    // 0xE9 is "é" in windows-1252 and invalid alone in UTF-8: the decode
    // wrapper must translate the byte, not pass it through.
    let req = make_request(vec![(
        "content-type",
        "application/x-www-form-urlencoded; charset=windows-1252",
    )]);
    let mut pl = Payload::from_bytes(b"name=caf\xE9".to_vec());
    let out = UrlEncoded::new(&req, &mut pl).resolve().unwrap();
    assert_eq!(out, vec![("name".to_string(), "caf\u{e9}".to_string())]);
}

#[test]
fn test_parse_error_on_malformed_body() {
    // An odd number of bytes cannot decode as UTF-16, and the decoder runs
    // without replacement characters: the drain succeeds, the decode fails.
    let req = make_request(vec![(
        "content-type",
        "application/x-www-form-urlencoded; charset=utf-16le",
    )]);
    let mut pl = Payload::from_bytes(b"a=b".to_vec());
    let out = UrlEncoded::new(&req, &mut pl).resolve();
    assert!(matches!(out.err().unwrap(), UrlencodedError::Parse));
}

#[test]
fn test_quoted_charset_parameter() {
    let req = make_request(vec![(
        "content-type",
        "Application/X-WWW-Form-Urlencoded; other=1; charset=\"utf-8\"",
    )]);
    let mut pl = Payload::from_bytes(b"k=v".to_vec());
    let out = UrlEncoded::new(&req, &mut pl).resolve().unwrap();
    assert_eq!(out, vec![("k".to_string(), "v".to_string())]);
}

#[test]
fn test_drain_machine_accepts_chunks_within_limit() {
    // The streaming path: the runtime pushes chunks one by one and finishes.
    let req = make_request(vec![("content-type", "application/x-www-form-urlencoded")]);
    let mut pl = Payload::Streaming { token: 9 };
    let (mut drain, rest) = UrlEncoded::new(&req, &mut pl).start().unwrap();
    assert!(matches!(rest, Payload::Streaming { token: 9 }));
    drain.push_chunk(b"hello=wo").unwrap();
    drain.push_chunk(b"rld").unwrap();
    let out = drain.finish().unwrap();
    assert_eq!(out, vec![("hello".to_string(), "world".to_string())]);
}

#[test]
fn test_drain_machine_rejects_overflowing_chunk() {
    let req = make_request(vec![("content-type", "application/x-www-form-urlencoded")]);
    let mut pl = Payload::Streaming { token: 1 };
    let (mut drain, _rest) = UrlEncoded::new(&req, &mut pl).limit(4).start().unwrap();
    drain.push_chunk(b"ab").unwrap();
    let err = drain.push_chunk(b"cde").err().unwrap();
    assert!(matches!(err, UrlencodedError::Overflow { size: 5, limit: 4 }));
    // The buffer is untouched by the rejected chunk.
    assert_eq!(drain.buf, b"ab".to_vec());
}

#[test]
fn test_declared_length_precheck_stops_streaming_start() {
    let req = make_request(vec![
        ("content-type", "application/x-www-form-urlencoded"),
        ("content-length", "50"),
    ]);
    let mut pl = Payload::Streaming { token: 1 };
    let err = UrlEncoded::new(&req, &mut pl).limit(10).start().err().unwrap();
    assert!(matches!(err, UrlencodedError::Overflow { size: 50, limit: 10 }));
}

#[test]
fn test_content_length_parse_is_strict() {
    // Leading spaces, signs and overflowing numbers are all unparsable.
    for bad in ["", " 5", "+5", "5 ", "99999999999999999999999999"] {
        let req = make_request(vec![
            ("content-type", "application/x-www-form-urlencoded"),
            ("content-length", bad),
        ]);
        let mut pl = Payload::Empty;
        let out = UrlEncoded::new(&req, &mut pl).resolve();
        assert!(
            matches!(out.err().unwrap(), UrlencodedError::UnknownLength),
            "expected UnknownLength for {:?}",
            bad
        );
    }
}

#[test]
fn test_content_type_essence_is_trimmed_and_case_insensitive() {
    let req = make_request(vec![(
        "content-type",
        "  APPLICATION/x-www-form-URLENCODED  ; charset=utf-8",
    )]);
    let mut pl = Payload::from_bytes(b"k=v".to_vec());
    let out = UrlEncoded::new(&req, &mut pl).resolve().unwrap();
    assert_eq!(out, vec![("k".to_string(), "v".to_string())]);
}

#[test]
fn test_missing_content_type_is_rejected() {
    let req = make_request(vec![]);
    let mut pl = Payload::from_bytes(b"k=v".to_vec());
    let out = UrlEncoded::new(&req, &mut pl).resolve();
    assert!(matches!(out.err().unwrap(), UrlencodedError::ContentType));
}

#[test]
fn test_error_messages_and_statuses() {
    assert_eq!(UrlencodedError::ContentType.status(), 415);
    assert_eq!(UrlencodedError::UnknownLength.status(), 411);
    assert_eq!(UrlencodedError::Overflow { size: 1, limit: 0 }.status(), 413);
    assert_eq!(UrlencodedError::Parse.status(), 400);
    assert_eq!(
        UrlencodedError::Payload { message: "reset".to_string() }.status(),
        400
    );
    assert_eq!(UrlencodedError::UnknownLength.message(), "Payload size is now known");
}
