use webenvelope::http::{Body, HeaderMap, Method, RequestHead, Response, Uri, Version};
use webenvelope::payload::Payload;
use webenvelope::registry::{DataLayer, Registry};
use webenvelope::request::{AppConfig, DataValue, HttpRequest};
use webenvelope::service::{
    AppService, Guard, HttpServiceFactory, ServiceRequest, ServiceResponse, WebService,
};
use webenvelope::testing::TestResponse;

fn make_head(method: Method, path: &str, query: &str, headers: Vec<(&str, &str)>) -> RequestHead {
    let mut map = HeaderMap::new();
    for (name, value) in headers {
        map.append(name.to_string(), value.to_string());
    }
    RequestHead {
        method,
        uri: Uri { path: path.to_string(), query: query.to_string() },
        version: Version::Http11,
        headers: map,
        peer_addr: None,
    }
}

fn make_request(method: Method, path: &str, query: &str, headers: Vec<(&str, &str)>) -> HttpRequest {
    let config = AppConfig { host: "localhost:8080".to_string(), secure: false };
    HttpRequest::new(make_head(method, path, query, headers), config)
}

fn dispatch(config: &AppService, req: ServiceRequest) -> ServiceResponse {
    for reg in &config.services {
        if reg.matches_request(&req.req.head) {
            return req.into_response(Response::new(200));
        }
    }
    req.into_response(Response::new(404))
}

#[test]
fn test_service_request() {
}

#[test]
fn test_service() {
    let mut config = AppService::new(true);
    WebService::new("/test".to_string())
        .name("test")
        .finish(1)
        .register(&mut config);
    let req = ServiceRequest::from_request(make_request(Method::Get, "/test", "", vec![]));
    let resp = dispatch(&config, req);
    assert_eq!(resp.status(), 200);

    let mut config = AppService::new(true);
    WebService::new("/test".to_string())
        .guard(Guard::MethodIs(Method::Get))
        .finish(1)
        .register(&mut config);
    let req = ServiceRequest::from_request(make_request(Method::Put, "/test", "", vec![]));
    let resp = dispatch(&config, req);
    assert_eq!(resp.status(), 404);
}

#[test]
fn test_method_guard_admits_matching_method() {
    let mut config = AppService::new(true);
    WebService::new("/test".to_string())
        .guard(Guard::MethodIs(Method::Get))
        .finish(1)
        .register(&mut config);
    let req = ServiceRequest::from_request(make_request(Method::Get, "/test", "", vec![]));
    let resp = dispatch(&config, req);
    assert_eq!(resp.status(), 200);
}

#[test]
fn test_service_data() {
    let mut config = AppService::new(true);
    WebService::new("/test".to_string())
        .name("test")
        .finish(1)
        .register(&mut config);

    let mut http_req = make_request(Method::Get, "/test", "", vec![]);
    let mut layer = DataLayer::new();
    layer.insert(5, DataValue::U32(42));
    http_req.push_data_layer(layer).unwrap();
    let req = ServiceRequest::from_request(http_req);

    match req.app_data(5).unwrap() {
        DataValue::U32(v) => assert_eq!(*v, 42),
        _ => panic!("expected the stored number"),
    }
    let resp = dispatch(&config, req);
    assert_eq!(resp.status(), 200);
}

#[test]
fn test_fmt_debug() {
    let req = ServiceRequest::from_request(make_request(
        Method::Get,
        "/index.html",
        "test=1",
        vec![("x-test", "111")],
    ));
    let s = req.debug_string();
    assert!(s.contains("ServiceRequest"));
    assert!(s.contains("test=1"));
    assert!(s.contains("x-test"));

    let mut res = Response::new(200);
    res.headers_mut().insert("x-test".to_string(), "111".to_string());
    let req = ServiceRequest::from_request(make_request(Method::Post, "/index.html", "test=1", vec![]));
    let res = req.into_response(res);

    let s = res.debug_string();
    assert!(s.contains("ServiceResponse"));
    assert!(s.contains("x-test"));
}

#[test]
fn test_registry_innermost_layer_shadows() {
    let mut reg: Registry<u32> = Registry::new();
    let mut outer = DataLayer::new();
    outer.insert(9, 41);
    reg.push_layer(outer).unwrap();
    let mut inner = DataLayer::new();
    inner.insert(9, 42);
    reg.push_layer(inner).unwrap();

    assert_eq!(*reg.lookup(9).unwrap(), 42);
}

#[test]
fn test_registry_push_fails_when_shared() {
    let mut reg: Registry<u32> = Registry::new();
    let mut layer = DataLayer::new();
    layer.insert(9, 41);
    reg.push_layer(layer).unwrap();
    reg.mark_shared();

    let mut late = DataLayer::new();
    late.insert(9, 42);
    assert!(reg.push_layer(late).is_err());
    assert_eq!(*reg.lookup(9).unwrap(), 41);
}

#[test]
fn test_take_payload_twice_yields_empty() {
    let mut req = ServiceRequest::new(
        make_request(Method::Post, "/", "", vec![]),
        Payload::from_bytes(b"abc".to_vec()),
    );
    let first = req.take_payload();
    assert!(matches!(first, Payload::Buffered { .. }));
    let second = req.take_payload();
    assert!(matches!(second, Payload::Empty));
}

#[test]
fn test_into_parts_from_parts_round_trip() {
    let req = ServiceRequest::new(
        make_request(Method::Get, "/a", "q=1", vec![("x-h", "v")]),
        Payload::from_bytes(b"body".to_vec()),
    );
    let (handle, payload) = req.into_parts();
    let rebuilt = ServiceRequest::from_parts(handle, payload);
    assert_eq!(rebuilt.path(), "/a");
    assert_eq!(rebuilt.query_string(), "q=1");
    assert_eq!(rebuilt.headers().get("x-h").unwrap().as_str(), "v");
    assert!(matches!(rebuilt.payload, Payload::Buffered { .. }));
}

#[test]
fn test_insert_slash_on_registration() {
    let mut config = AppService::new(true);
    WebService::new("test".to_string()).finish(3).register(&mut config);
    assert_eq!(config.services.len(), 1);
    assert_eq!(config.services[0].rdef.patterns[0].as_str(), "/test");
    assert_eq!(config.services[0].service, 3);
    assert!(config.services[0].guards.is_none());
}

#[test]
fn test_header_guard() {
    let head = make_head(Method::Get, "/", "", vec![("x-key", "abc")]);
    let pass = Guard::HeaderEq("x-key".to_string(), "abc".to_string());
    let fail = Guard::HeaderEq("x-key".to_string(), "zzz".to_string());
    assert!(pass.check(&head));
    assert!(!fail.check(&head));
}

#[test]
fn test_connection_info_memoized() {
    let mut req = make_request(Method::Get, "/", "", vec![("host", "example.test")]);
    let ci = req.connection_info();
    assert_eq!(ci.scheme.as_str(), "http");
    assert_eq!(ci.host.as_str(), "example.test");

    // The cached value survives even a later change of the Host header.
    req.head.headers.insert("host".to_string(), "other.test".to_string());
    let again = req.connection_info();
    assert_eq!(again.host.as_str(), "example.test");
}

#[test]
fn test_error_response_shape() {
    let req = ServiceRequest::from_request(make_request(Method::Get, "/", "", vec![]));
    let resp = req.error_response(webenvelope::error::Error {
        status: 413,
        message: "too large".to_string(),
    });
    assert_eq!(resp.status(), 413);
    match &resp.response.body {
        Body::Text(s) => assert_eq!(s.as_str(), "too large"),
        _ => panic!("expected a text body"),
    }
}

#[test]
fn test_checked_expr_recovers_from_failure() {
    let req = make_request(Method::Get, "/", "", vec![]);
    let resp = ServiceResponse::new(req, Response::new(200));
    let out = resp.checked_expr(|mut s: ServiceResponse| {
        s.insert_header("x-step".to_string(), "1".to_string());
        Err((s, webenvelope::error::Error { status: 500, message: "boom".to_string() }))
    });
    assert_eq!(out.status(), 500);
    assert!(out.headers().get("x-step").is_none());

    let req = make_request(Method::Get, "/", "", vec![]);
    let resp = ServiceResponse::new(req, Response::new(200));
    let out = resp.checked_expr(|mut s: ServiceResponse| {
        s.insert_header("x-step".to_string(), "1".to_string());
        Ok(s)
    });
    assert_eq!(out.status(), 200);
    assert_eq!(out.headers().get("x-step").unwrap().as_str(), "1");
}

#[test]
fn test_map_body_keeps_request() {
    let req = make_request(Method::Get, "/ctx", "", vec![]);
    let resp = ServiceResponse::new(req, Response::with_body(200, Body::Bytes(b"abc".to_vec())));
    let out = resp.map_body(|head, body| {
        let n = match body {
            Body::Bytes(b) => b.len(),
            _ => 0,
        };
        (head, Body::Bytes(vec![b'x'; n]))
    });
    assert_eq!(out.request().head.uri.path.as_str(), "/ctx");
    match &out.response.body {
        Body::Bytes(b) => assert_eq!(b, &vec![b'x'; 3]),
        _ => panic!("expected a byte body"),
    }
}

#[test]
fn test_basics() {
    let res = TestResponse::default()
        .version(Version::Http2)
        .insert_header("date".to_string(), "Mon, 29 Nov 2021 10:51:16 GMT".to_string())
        .insert_header("set-cookie".to_string(), "name=value".to_string())
        .finish();
    assert!(res.headers().contains_key("set-cookie"));
    assert!(res.headers().contains_key("date"));
    assert_eq!(res.version(), Version::Http2);
}
