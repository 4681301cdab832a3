//! What the engine reads of a request.

use super::valid::valid_value;
use vstd::prelude::*;

verus! {

pub const ORIGIN: &'static str = "origin";

pub const ACCESS_CONTROL_REQUEST_METHOD: &'static str = "access-control-request-method";

pub const ACCESS_CONTROL_REQUEST_HEADERS: &'static str = "access-control-request-headers";

/// A request as the contracts see it.
pub struct Request {
    pub method: Seq<u8>,
    pub origin: Option<Seq<u8>>,
    pub requested_method: Option<Seq<u8>>,
    pub requested_headers: Option<Seq<u8>>,
}

/// The origin of the request, if it has one, is a header value, as every
/// origin is that was read from a request.
pub open spec fn sendable(request: Request) -> bool {
    request.origin matches Some(origin) ==> valid_value(origin)
}

/// The part of a request that a decision depends on: its method and the
/// values of its `Origin`, `Access-Control-Request-Method` and
/// `Access-Control-Request-Headers` headers, each `None` when the request
/// does not carry the header. Values are kept byte for byte.
#[derive(Debug)]
pub struct RequestView {
    pub method: Vec<u8>,
    pub origin: Option<Vec<u8>>,
    pub requested_method: Option<Vec<u8>>,
    pub requested_headers: Option<Vec<u8>>,
}

/// The bytes of an optional value.
pub open spec fn bytes_of(value: Option<Vec<u8>>) -> Option<Seq<u8>> {
    match value {
        Some(v) => Some(v@),
        None => None,
    }
}

impl View for RequestView {
    type V = Request;

    open spec fn view(&self) -> Request {
        Request {
            method: self.method@,
            origin: bytes_of(self.origin),
            requested_method: bytes_of(self.requested_method),
            requested_headers: bytes_of(self.requested_headers),
        }
    }
}

impl RequestView {
    /// A request with the given method and no header that matters here.
    pub fn new(method: Vec<u8>) -> (r: RequestView)
        ensures
            r@ == (Request {
                method: method@,
                origin: None,
                requested_method: None,
                requested_headers: None,
            }),
    {
        RequestView { method, origin: None, requested_method: None, requested_headers: None }
    }

    /// The same request with `Origin` set to `origin`.
    pub fn origin(self, origin: Vec<u8>) -> (r: RequestView)
        ensures
            r@ == (Request { origin: Some(origin@), ..self@ }),
    {
        RequestView { origin: Some(origin), ..self }
    }

    /// The same request with `Access-Control-Request-Method` set to `method`.
    pub fn requested_method(self, method: Vec<u8>) -> (r: RequestView)
        ensures
            r@ == (Request { requested_method: Some(method@), ..self@ }),
    {
        RequestView { requested_method: Some(method), ..self }
    }

    /// The same request with `Access-Control-Request-Headers` set to `headers`.
    pub fn requested_headers(self, headers: Vec<u8>) -> (r: RequestView)
        ensures
            r@ == (Request { requested_headers: Some(headers@), ..self@ }),
    {
        RequestView { requested_headers: Some(headers), ..self }
    }
}

} // verus!
