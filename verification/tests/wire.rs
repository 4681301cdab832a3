use axum_cors::cors::lists::lowercase;
use axum_cors::cors::valid::{is_of_kind, token_byte, value_byte, Kind};
use axum_cors::{read_request, room_for, to_header_map, write_fields, HeaderSet};
use http::header::{self, HeaderMap, HeaderName, HeaderValue};

fn set(fields: &[(&[u8], &[u8])]) -> HeaderSet {
    let mut headers = HeaderSet::new();
    for (name, value) in fields {
        headers.append(name.to_vec(), value.to_vec());
    }
    headers
}

#[test]
fn reading_a_request() {
    let mut headers = HeaderMap::new();
    headers.insert(header::ORIGIN, HeaderValue::from_static("http://test.example"));
    headers.insert(header::ACCESS_CONTROL_REQUEST_METHOD, HeaderValue::from_static("POST"));
    headers.insert(header::HOST, HeaderValue::from_static("test.example"));
    let view = read_request(b"OPTIONS", &headers);
    assert_eq!(view.method, b"OPTIONS".to_vec());
    assert_eq!(view.origin, Some(b"http://test.example".to_vec()));
    assert_eq!(view.requested_method, Some(b"POST".to_vec()));
    assert_eq!(view.requested_headers, None);
}

#[test]
fn reading_a_request_without_headers() {
    let view = read_request(b"GET", &HeaderMap::new());
    assert_eq!(view.method, b"GET".to_vec());
    assert_eq!(view.origin, None);
    assert_eq!(view.requested_method, None);
    assert_eq!(view.requested_headers, None);
}

#[test]
fn reading_takes_the_first_of_repeated_headers() {
    let mut headers = HeaderMap::new();
    headers.append(header::ORIGIN, HeaderValue::from_static("http://first"));
    headers.append(header::ORIGIN, HeaderValue::from_static("http://second"));
    headers.append(header::ACCESS_CONTROL_REQUEST_HEADERS, HeaderValue::from_static("a"));
    headers.append(header::ACCESS_CONTROL_REQUEST_HEADERS, HeaderValue::from_static("b"));
    let view = read_request(b"GET", &headers);
    assert_eq!(view.origin, Some(b"http://first".to_vec()));
    assert_eq!(view.requested_headers, Some(b"a".to_vec()));
}

#[test]
fn reading_keeps_values_byte_for_byte() {
    let mut headers = HeaderMap::new();
    headers.insert(header::ORIGIN, HeaderValue::from_bytes(b"http://\xfa\xfb Example").unwrap());
    let view = read_request(b"GET", &headers);
    assert_eq!(view.origin, Some(b"http://\xfa\xfb Example".to_vec()));
}

#[test]
fn header_map_of_fields() {
    let headers = to_header_map(&set(&[
        (b"vary", b"origin"),
        (b"Access-Control-Allow-Origin", b"*"),
    ]))
    .expect("a map");
    assert_eq!(headers.len(), 2);
    assert_eq!(headers["vary"], "origin");
    assert_eq!(headers[header::ACCESS_CONTROL_ALLOW_ORIGIN], "*");
    let names: Vec<&str> = headers.keys().map(|k| k.as_str()).collect();
    assert_eq!(names, vec!["vary", "access-control-allow-origin"]);
}

#[test]
fn header_map_of_no_fields() {
    assert!(to_header_map(&HeaderSet::new()).expect("a map").is_empty());
}

#[test]
fn fields_of_one_name_are_all_kept_in_order() {
    let headers = to_header_map(&set(&[
        (b"vary", b"origin"),
        (b"server", b"x"),
        (b"Vary", b"accept"),
    ]))
    .expect("a map");
    let vary: Vec<&HeaderValue> = headers.get_all(header::VARY).iter().collect();
    assert_eq!(vary, vec!["origin", "accept"]);
    assert_eq!(headers[header::SERVER], "x");
    assert_eq!(headers.keys_len(), 2);
    assert_eq!(headers.len(), 3);
}

#[test]
fn fields_that_the_http_crate_refuses() {
    assert!(to_header_map(&set(&[(b"vary", b"a\nb")])).is_none());
    assert!(to_header_map(&set(&[(b"va ry", b"a")])).is_none());
    assert!(to_header_map(&set(&[(b"", b"a")])).is_none());
    assert!(to_header_map(&set(&[(b"vary", b"")])).is_some());
}

#[test]
fn writing_stops_at_the_first_refused_field() {
    let mut headers = HeaderMap::new();
    headers.insert(header::SERVER, HeaderValue::from_static("x"));
    let done = write_fields(
        &mut headers,
        &set(&[(b"vary", b"origin"), (b"bad name", b"x"), (b"age", b"1")]),
    );
    assert!(!done);
    assert_eq!(headers[header::VARY], "origin");
    assert_eq!(headers[header::SERVER], "x");
    assert!(headers.get(header::AGE).is_none());
}

#[test]
fn writing_adds_fields_to_what_is_there() {
    let mut headers = HeaderMap::new();
    headers.append(header::VARY, HeaderValue::from_static("accept"));
    headers.append(header::VARY, HeaderValue::from_static("cookie"));
    headers.append(header::SET_COOKIE, HeaderValue::from_static("a=1"));
    headers.append(header::SET_COOKIE, HeaderValue::from_static("b=2"));
    assert!(write_fields(&mut headers, &set(&[(b"VARY", b"origin"), (b"age", b"1")])));
    let vary: Vec<&HeaderValue> = headers.get_all(header::VARY).iter().collect();
    assert_eq!(vary, vec!["accept", "cookie", "origin"]);
    let cookies: Vec<&HeaderValue> = headers.get_all(header::SET_COOKIE).iter().collect();
    assert_eq!(cookies, vec!["a=1", "b=2"]);
    assert_eq!(headers[header::AGE], "1");
    assert_eq!(headers.keys_len(), 3);
}

#[test]
fn a_refused_field_leaves_the_map_as_it_was() {
    let mut headers = HeaderMap::new();
    headers.insert(header::SERVER, HeaderValue::from_static("x"));
    let before = headers.clone();
    assert!(!write_fields(&mut headers, &set(&[(b"vary", b"a\rb")])));
    assert_eq!(headers, before);
    assert!(!write_fields(&mut headers, &set(&[(b"", b"a")])));
    assert_eq!(headers, before);
}

#[test]
fn token_bytes_are_the_bytes_of_header_names() {
    for byte in 0..=255u8 {
        let accepted = HeaderName::from_bytes(&[byte]).is_ok();
        assert_eq!(token_byte(byte), accepted, "{}", byte);
        assert_eq!(is_of_kind(Kind::Name, &[byte]), accepted, "{}", byte);
        assert_eq!(is_of_kind(Kind::Token, &[byte]), accepted, "{}", byte);
        let long = [b'a', byte].repeat(40);
        assert_eq!(is_of_kind(Kind::Name, &long), HeaderName::from_bytes(&long).is_ok());
    }
}

#[test]
fn value_bytes_are_the_bytes_of_header_values() {
    for byte in 0..=255u8 {
        let accepted = HeaderValue::from_bytes(&[b'a', byte, b'b']).is_ok();
        assert_eq!(value_byte(byte), accepted, "{}", byte);
        assert_eq!(is_of_kind(Kind::Value, &[b'a', byte, b'b']), accepted, "{}", byte);
    }
    assert!(is_of_kind(Kind::Value, b""));
    assert!(HeaderValue::from_bytes(b"").is_ok());
}

#[test]
fn header_names_have_a_length_from_one_to_the_limit() {
    for length in [0usize, 1, 64, 65, 65534, 65535, 65536, 70000] {
        let name = vec![b'a'; length];
        assert_eq!(
            is_of_kind(Kind::Name, &name),
            HeaderName::from_bytes(&name).is_ok(),
            "{}",
            length
        );
    }
    assert!(!is_of_kind(Kind::Token, b""));
    assert!(is_of_kind(Kind::Token, &vec![b'a'; 70000]));
}

#[test]
fn room_is_counted_in_header_names() {
    let mut headers = HeaderMap::new();
    assert!(room_for(&headers, 0));
    assert!(room_for(&headers, 6554));
    assert!(!room_for(&headers, 6555));
    headers.append(header::VARY, HeaderValue::from_static("a"));
    headers.append(header::VARY, HeaderValue::from_static("b"));
    headers.append(header::AGE, HeaderValue::from_static("1"));
    assert!(room_for(&headers, 6552));
    assert!(!room_for(&headers, 6553));
    assert!(!room_for(&headers, usize::MAX));
}

#[test]
fn a_map_with_room_takes_every_valid_field() {
    let mut headers = HeaderMap::new();
    for i in 0..6553u32 {
        let name = format!("x-{}", i);
        headers.append(
            HeaderName::from_bytes(name.as_bytes()).unwrap(),
            HeaderValue::from_static("v"),
        );
    }
    assert!(room_for(&headers, 1));
    assert!(write_fields(&mut headers, &set(&[(b"vary", b"origin")])));
    assert_eq!(headers.keys_len(), 6554);
    assert!(!room_for(&headers, 1));
    assert_eq!(headers[header::VARY], "origin");
}

#[test]
fn names_are_kept_in_lower_case_as_the_library_lowers_them() {
    for byte in 0..=255u8 {
        let name = [b'x', byte, b'y'];
        if let Ok(parsed) = HeaderName::from_bytes(&name) {
            assert_eq!(parsed.as_str().as_bytes(), lowercase(&name).as_slice());
        }
    }
    let long = [b'Q'; 100];
    let parsed = HeaderName::from_bytes(&long).unwrap();
    assert_eq!(parsed.as_str().as_bytes(), lowercase(&long).as_slice());
}

#[test]
fn the_names_of_the_library_are_those_of_the_http_crate() {
    assert_eq!(axum_cors::cors::headers::VARY, header::VARY.as_str());
    assert_eq!(axum_cors::cors::headers::ACCESS_CONTROL_ALLOW_ORIGIN, header::ACCESS_CONTROL_ALLOW_ORIGIN.as_str());
    assert_eq!(
        axum_cors::cors::headers::ACCESS_CONTROL_ALLOW_CREDENTIALS,
        header::ACCESS_CONTROL_ALLOW_CREDENTIALS.as_str()
    );
    assert_eq!(axum_cors::cors::headers::ACCESS_CONTROL_ALLOW_METHODS, header::ACCESS_CONTROL_ALLOW_METHODS.as_str());
    assert_eq!(axum_cors::cors::headers::ACCESS_CONTROL_ALLOW_HEADERS, header::ACCESS_CONTROL_ALLOW_HEADERS.as_str());
    assert_eq!(
        axum_cors::cors::headers::ACCESS_CONTROL_EXPOSE_HEADERS,
        header::ACCESS_CONTROL_EXPOSE_HEADERS.as_str()
    );
    assert_eq!(axum_cors::cors::headers::ACCESS_CONTROL_MAX_AGE, header::ACCESS_CONTROL_MAX_AGE.as_str());
    assert_eq!(axum_cors::cors::request::ORIGIN, header::ORIGIN.as_str());
    assert_eq!(
        axum_cors::cors::request::ACCESS_CONTROL_REQUEST_METHOD,
        header::ACCESS_CONTROL_REQUEST_METHOD.as_str()
    );
    assert_eq!(
        axum_cors::cors::request::ACCESS_CONTROL_REQUEST_HEADERS,
        header::ACCESS_CONTROL_REQUEST_HEADERS.as_str()
    );
    assert_eq!(axum_cors::cors::config::OPTIONS, http::Method::OPTIONS.as_str());
    assert_eq!(axum_cors::cors::service::FORBIDDEN, http::StatusCode::FORBIDDEN.as_u16());
    assert_eq!(axum_cors::cors::service::NO_CONTENT, http::StatusCode::NO_CONTENT.as_u16());
}
