use axum_cors::{
    read_request, to_header_map, AllowedOrigins, Config, CorsBuilder, CorsResource,
    InvalidRequest,
};
use http::header::{self, HeaderName, HeaderValue};
use http::{HeaderMap, Method};
use std::collections::BTreeSet;
use std::time::Duration;

fn process<B>(cfg: &Config, req: &http::Request<B>) -> Result<CorsResource, InvalidRequest> {
    cfg.process_request(&read_request(req.method().as_str().as_bytes(), req.headers()))
}

fn into_simple(resource: CorsResource) -> HeaderMap {
    let headers = resource.into_simple().expect("Not a simple resource");
    to_header_map(&headers).expect("headers refused")
}

fn into_preflight(resource: CorsResource) -> HeaderMap {
    let headers = resource.into_preflight().expect("Not a preflight resource");
    to_header_map(&headers).expect("headers refused")
}

fn methods(list: Vec<Method>) -> Vec<Vec<u8>> {
    list.iter().map(|m| m.as_str().as_bytes().to_vec()).collect()
}

fn names(list: &[HeaderName]) -> Vec<Vec<u8>> {
    list.iter().map(|n| n.as_str().as_bytes().to_vec()).collect()
}

fn origins(list: Vec<HeaderValue>) -> AllowedOrigins {
    AllowedOrigins::from_iter(list.iter().map(|v| v.as_bytes().to_vec()).collect())
}

fn assert_set(header: &HeaderValue, expected: Vec<&str>) {
    let actual: BTreeSet<&str> = header.to_str().unwrap().split(",").collect();
    let expected: BTreeSet<&str> = expected.into_iter().collect();
    assert_eq!(actual, expected);
}

fn simple_origin_config_builder() -> CorsBuilder {
    CorsBuilder::new()
}

fn simple_origin_request_builder() -> http::request::Builder {
    http::Request::builder()
}

fn preflight_origin_config_builder() -> CorsBuilder {
    CorsBuilder::new().allow_methods(methods(vec![Method::POST]))
}

fn preflight_origin_request_builder() -> http::request::Builder {
    let builder = http::Request::builder();
    builder.method(Method::OPTIONS).header(
        header::ACCESS_CONTROL_REQUEST_METHOD,
        HeaderValue::from_static("POST"),
    )
}

fn common_allows_when_origin_is_any(
    cfg_builder: CorsBuilder,
    req_builder: fn() -> http::request::Builder,
) {
    let cfg = cfg_builder
        .allow_origins(AllowedOrigins::Any { allow_null: false })
        .into_config();

    let req = req_builder()
        .header(
            header::ORIGIN,
            HeaderValue::from_static("http://test.example"),
        )
        .body(())
        .unwrap();

    assert!(matches!(process(&cfg, &req), Ok(_)));
}

fn common_disallows_null_origin_even_for_any(
    cfg_builder: CorsBuilder,
    req_builder: fn() -> http::request::Builder,
) {
    let cfg = cfg_builder
        .allow_origins(AllowedOrigins::Any { allow_null: false })
        .into_config();

    let req = req_builder()
        .header(header::ORIGIN, HeaderValue::from_static("null"))
        .body(())
        .unwrap();

    assert!(matches!(
        process(&cfg, &req),
        Err(InvalidRequest::DisallowedOrigin)
    ));
}

fn common_allows_null_origin_for_any_when_configured(
    cfg_builder: CorsBuilder,
    req_builder: fn() -> http::request::Builder,
) {
    let cfg = cfg_builder
        .allow_origins(AllowedOrigins::Any { allow_null: true })
        .into_config();

    let req = req_builder()
        .header(header::ORIGIN, HeaderValue::from_static("null"))
        .body(())
        .unwrap();

    assert!(matches!(process(&cfg, &req), Ok(_)));
}

fn common_compares_origin_against_allowed_origins(
    cfg_builder: CorsBuilder,
    req_builder: fn() -> http::request::Builder,
) {
    let cfg = cfg_builder
        .allow_origins(origins(vec![
            HeaderValue::from_static("http://foo.example"),
            HeaderValue::from_static("http://bar.example"),
        ]))
        .into_config();

    let allowed_req_foo = req_builder()
        .header(
            header::ORIGIN,
            HeaderValue::from_static("http://foo.example"),
        )
        .body(())
        .unwrap();

    assert!(matches!(process(&cfg, &allowed_req_foo), Ok(_)));

    let allowed_req_bar = req_builder()
        .header(
            header::ORIGIN,
            HeaderValue::from_static("http://bar.example"),
        )
        .body(())
        .unwrap();

    assert!(matches!(process(&cfg, &allowed_req_bar), Ok(_)));

    let disallowed_req_unlisted = req_builder()
        .header(
            header::ORIGIN,
            HeaderValue::from_static("http://quux.example"),
        )
        .body(())
        .unwrap();

    assert!(matches!(
        process(&cfg, &disallowed_req_unlisted),
        Err(InvalidRequest::DisallowedOrigin)
    ));

    let disallowed_req_differing_case = req_builder()
        .header(
            header::ORIGIN,
            HeaderValue::from_static("http://FOO.example"),
        )
        .body(())
        .unwrap();

    assert!(matches!(
        process(&cfg, &disallowed_req_differing_case),
        Err(InvalidRequest::DisallowedOrigin)
    ));

    let disallowed_req_differing_scheme = req_builder()
        .header(
            header::ORIGIN,
            HeaderValue::from_static("https://foo.example"),
        )
        .body(())
        .unwrap();

    assert!(matches!(
        process(&cfg, &disallowed_req_differing_scheme),
        Err(InvalidRequest::DisallowedOrigin)
    ));
}

fn common_test_vary_header<B>(
    builder: CorsBuilder,
    req: http::Request<B>,
    f: fn(CorsResource) -> HeaderMap,
) {
    let cfg = builder.into_config();

    let mut headers = f(process(&cfg, &req).unwrap());

    let hdr = headers.remove(header::VARY).expect("vary header missing");

    assert_set(
        &hdr,
        vec![
            "origin",
            "access-control-request-method",
            "access-control-request-headers",
        ],
    );
}

fn common_test_allowed_credentials<B>(
    builder: CorsBuilder,
    req: http::Request<B>,
    f: fn(CorsResource) -> HeaderMap,
) {
    let cfg = builder.allow_credentials(true).into_config();

    let mut headers = f(process(&cfg, &req).unwrap());
    let hdr = headers
        .remove(header::ACCESS_CONTROL_ALLOW_CREDENTIALS)
        .expect("allow-credentials header missing");

    assert_eq!(hdr, "true");
}

fn common_test_allowed_origin<B>(
    builder: CorsBuilder,
    req: http::Request<B>,
    f: fn(CorsResource) -> HeaderMap,
) {
    let cfg_no_wildcard_no_credentials = builder.clone().into_config();
    let mut headers = f(process(&cfg_no_wildcard_no_credentials, &req).unwrap());
    let hdr = headers
        .remove(header::ACCESS_CONTROL_ALLOW_ORIGIN)
        .expect("allow-origin header missing");

    assert_eq!(hdr, "http://test.example");

    let cfg_wildcard_no_credentials = builder.clone().prefer_wildcard(true).into_config();
    let mut headers = f(process(&cfg_wildcard_no_credentials, &req).unwrap());
    let hdr = headers
        .remove(header::ACCESS_CONTROL_ALLOW_ORIGIN)
        .expect("allow-origin header missing");

    assert_eq!(hdr, "*");

    let cfg_wildcard_credentials = builder
        .clone()
        .prefer_wildcard(true)
        .allow_credentials(true)
        .into_config();
    let mut headers = f(process(&cfg_wildcard_credentials, &req).unwrap());
    let hdr = headers
        .remove(header::ACCESS_CONTROL_ALLOW_ORIGIN)
        .expect("allow-origin header missing");

    assert_eq!(hdr, "http://test.example");
}

fn simple_request() -> http::Request<()> {
    http::Request::builder()
        .header(
            header::ORIGIN,
            HeaderValue::from_static("http://test.example"),
        )
        .body(())
        .unwrap()
}

fn preflight_request() -> http::Request<()> {
    http::Request::builder()
        .method(Method::OPTIONS)
        .header(
            header::ORIGIN,
            HeaderValue::from_static("http://test.example"),
        )
        .header(
            header::ACCESS_CONTROL_REQUEST_METHOD,
            HeaderValue::from_static("POST"),
        )
        .body(())
        .unwrap()
}

fn any_origin_post_builder() -> CorsBuilder {
    CorsBuilder::new()
        .allow_origins(AllowedOrigins::Any { allow_null: false })
        .allow_methods(methods(vec![Method::POST]))
}

#[test]
fn simple_allows_when_origin_is_any() {
    common_allows_when_origin_is_any(
        simple_origin_config_builder(),
        simple_origin_request_builder,
    )
}

#[test]
fn simple_disallows_null_origin_even_for_any() {
    common_disallows_null_origin_even_for_any(
        simple_origin_config_builder(),
        simple_origin_request_builder,
    )
}

#[test]
fn simple_allows_null_origin_for_any_when_configured() {
    common_allows_null_origin_for_any_when_configured(
        simple_origin_config_builder(),
        simple_origin_request_builder,
    )
}

#[test]
fn simple_compares_origin_against_allowed_origins() {
    common_compares_origin_against_allowed_origins(
        simple_origin_config_builder(),
        simple_origin_request_builder,
    )
}

#[test]
fn simple_response_includes_vary_header() {
    common_test_vary_header(any_origin_post_builder(), simple_request(), into_simple)
}

#[test]
fn simple_response_includes_allowed_credentials() {
    common_test_allowed_credentials(any_origin_post_builder(), simple_request(), into_simple)
}

#[test]
fn simple_response_includes_allowed_origin() {
    common_test_allowed_origin(any_origin_post_builder(), simple_request(), into_simple)
}

#[test]
fn simple_response_includes_exposed_headers() {
    let cfg = CorsBuilder::new()
        .allow_origins(AllowedOrigins::Any { allow_null: false })
        .allow_methods(methods(vec![Method::POST]))
        .expose_headers(names(&[
            header::WARNING,
            HeaderName::from_static("x-custom"),
        ]))
        .into_config();

    let req = simple_request();

    let mut headers = into_simple(process(&cfg, &req).unwrap());
    let hdr = headers
        .remove(header::ACCESS_CONTROL_EXPOSE_HEADERS)
        .expect("expose-headers header missing");

    assert_set(&hdr, vec!["warning", "x-custom"]);
}

#[test]
fn preflight_allows_when_origin_is_any() {
    common_allows_when_origin_is_any(
        preflight_origin_config_builder(),
        preflight_origin_request_builder,
    )
}

#[test]
fn preflight_disallows_null_origin_even_for_any() {
    common_disallows_null_origin_even_for_any(
        preflight_origin_config_builder(),
        preflight_origin_request_builder,
    )
}

#[test]
fn preflight_allows_null_origin_for_any_when_configured() {
    common_allows_null_origin_for_any_when_configured(
        preflight_origin_config_builder(),
        preflight_origin_request_builder,
    )
}

#[test]
fn preflight_compares_origin_against_allowed_origins() {
    common_compares_origin_against_allowed_origins(
        preflight_origin_config_builder(),
        preflight_origin_request_builder,
    )
}

#[test]
fn preflight_compares_method_against_allowed_methods() {
    let cfg = CorsBuilder::new()
        .allow_origins(AllowedOrigins::Any { allow_null: false })
        .allow_methods(methods(vec![Method::POST, Method::PATCH]))
        .into_config();

    let builder = || -> http::request::Builder {
        let builder = http::Request::builder();
        builder.method(Method::OPTIONS).header(
            header::ORIGIN,
            HeaderValue::from_static("http://test.example"),
        )
    };

    let allowed_req_post = builder()
        .header(
            header::ACCESS_CONTROL_REQUEST_METHOD,
            HeaderValue::from_static("POST"),
        )
        .body(())
        .unwrap();

    assert!(matches!(process(&cfg, &allowed_req_post), Ok(_)));

    let allowed_req_patch = builder()
        .header(
            header::ACCESS_CONTROL_REQUEST_METHOD,
            HeaderValue::from_static("PATCH"),
        )
        .body(())
        .unwrap();

    assert!(matches!(process(&cfg, &allowed_req_patch), Ok(_)));

    let disallowed_req_put = builder()
        .header(
            header::ACCESS_CONTROL_REQUEST_METHOD,
            HeaderValue::from_static("PUT"),
        )
        .body(())
        .unwrap();

    assert!(matches!(
        process(&cfg, &disallowed_req_put),
        Err(InvalidRequest::DisallowedMethod)
    ));
}

#[test]
fn preflight_compares_headers_against_allowed_headers() {
    let cfg = CorsBuilder::new()
        .allow_origins(AllowedOrigins::Any { allow_null: false })
        .allow_methods(methods(vec![Method::POST]))
        .allow_headers(names(&[
            header::SERVER,
            header::WARNING,
            HeaderName::from_static("x-custom"),
        ]))
        .into_config();

    let builder = || -> http::request::Builder {
        let builder = http::Request::builder();
        builder
            .method(Method::OPTIONS)
            .header(
                header::ORIGIN,
                HeaderValue::from_static("http://test.example"),
            )
            .header(
                header::ACCESS_CONTROL_REQUEST_METHOD,
                HeaderValue::from_static("POST"),
            )
    };

    let allowed_req_server = builder()
        .header(
            header::ACCESS_CONTROL_REQUEST_HEADERS,
            HeaderValue::from(header::SERVER),
        )
        .body(())
        .unwrap();

    assert!(matches!(process(&cfg, &allowed_req_server), Ok(_)));

    let allowed_req_warning = builder()
        .header(
            header::ACCESS_CONTROL_REQUEST_HEADERS,
            HeaderValue::from(header::WARNING),
        )
        .body(())
        .unwrap();

    assert!(matches!(process(&cfg, &allowed_req_warning), Ok(_)));

    let allowed_req_multiple = builder()
        .header(
            header::ACCESS_CONTROL_REQUEST_HEADERS,
            HeaderValue::from_static("server,warning,x-custom"),
        )
        .body(())
        .unwrap();

    assert!(matches!(process(&cfg, &allowed_req_multiple), Ok(_)));

    let allowed_req_differing_case = builder()
        .header(
            header::ACCESS_CONTROL_REQUEST_HEADERS,
            HeaderValue::from_static("Server,WARNING,X-cUsToM"),
        )
        .body(())
        .unwrap();

    assert!(matches!(process(&cfg, &allowed_req_differing_case), Ok(_)));

    let disallowed_req_range = builder()
        .header(
            header::ACCESS_CONTROL_REQUEST_HEADERS,
            HeaderValue::from(header::CONTENT_RANGE),
        )
        .body(())
        .unwrap();

    assert!(matches!(
        process(&cfg, &disallowed_req_range),
        Err(InvalidRequest::DisallowedHeader)
    ));
}

#[test]
fn preflight_response_includes_vary_header() {
    common_test_vary_header(any_origin_post_builder(), preflight_request(), into_preflight)
}

#[test]
fn preflight_response_includes_allowed_credentials() {
    common_test_allowed_credentials(any_origin_post_builder(), preflight_request(), into_preflight)
}

#[test]
fn preflight_response_includes_allowed_origin() {
    common_test_allowed_origin(any_origin_post_builder(), preflight_request(), into_preflight)
}

#[test]
fn preflight_response_includes_allowed_methods() {
    let cfg = CorsBuilder::new()
        .allow_origins(AllowedOrigins::Any { allow_null: false })
        .allow_methods(methods(vec![
            Method::POST,
            Method::PATCH,
            Method::from_bytes(b"LIST").unwrap(),
        ]))
        .into_config();

    let req = preflight_request();

    let mut headers = into_preflight(process(&cfg, &req).unwrap());
    let hdr = headers
        .remove(header::ACCESS_CONTROL_ALLOW_METHODS)
        .expect("allow-methods header missing");

    assert_set(&hdr, vec!["PATCH", "LIST", "POST"]);
}

#[test]
fn preflight_response_includes_allowed_headers() {
    let cfg = CorsBuilder::new()
        .allow_origins(AllowedOrigins::Any { allow_null: false })
        .allow_methods(methods(vec![Method::POST]))
        .allow_headers(names(&[
            header::SERVER,
            header::WARNING,
            HeaderName::from_static("x-custom"),
        ]))
        .into_config();

    let req = preflight_request();

    let mut headers = into_preflight(process(&cfg, &req).unwrap());
    let hdr = headers
        .remove(header::ACCESS_CONTROL_ALLOW_HEADERS)
        .expect("allow-headers header missing");

    assert_set(&hdr, vec!["server", "warning", "x-custom"]);
}

#[test]
fn preflight_response_includes_max_age() {
    let cfg = CorsBuilder::new()
        .allow_origins(AllowedOrigins::Any { allow_null: false })
        .allow_methods(methods(vec![Method::POST]))
        .max_age(Duration::from_secs(42).as_secs())
        .into_config();

    let req = preflight_request();

    let mut headers = into_preflight(process(&cfg, &req).unwrap());
    let hdr = headers
        .remove(header::ACCESS_CONTROL_MAX_AGE)
        .expect("max-age header missing");

    assert_eq!(hdr, "42");
}
