//! The policy and the decision engine.

use super::headers::{
    all_valid, lemma_names_are_valid, Field, HeaderSet, ACCESS_CONTROL_ALLOW_CREDENTIALS, ACCESS_CONTROL_ALLOW_HEADERS,
    ACCESS_CONTROL_ALLOW_METHODS, ACCESS_CONTROL_ALLOW_ORIGIN, ACCESS_CONTROL_EXPOSE_HEADERS,
    ACCESS_CONTROL_MAX_AGE, VARY,
};
use super::lists::{all_lower, contains, contains_ignoring_case, copy_list, distinct};
use super::request::{
    bytes_of, sendable, Request, RequestView, ACCESS_CONTROL_REQUEST_HEADERS, ACCESS_CONTROL_REQUEST_METHOD,
    ORIGIN,
};
use super::text::{
    bytes_eq, decimal, decimal_digits, join, join_list, list_view, literal, same_ignoring_case,
    split, split_list, text, to_vec, trim, trimmed,
};
use super::valid::{
    all_fit, lemma_decimal_is_value, lemma_fit_as_values, lemma_join_is_value, valid_value, Kind,
};
use vstd::prelude::*;

verus! {

/// The method of a preflight request.
pub const OPTIONS: &'static str = "OPTIONS";

/// The origin that browsers send for opaque origins.
pub const NULL_ORIGIN: &'static str = "null";

/// The value of `Access-Control-Allow-Origin` that admits every origin.
pub const WILDCARD: &'static str = "*";

/// The value of `Access-Control-Allow-Credentials`.
pub const TRUE: &'static str = "true";

/// The byte that separates the items of a list in a header value.
pub const COMMA: u8 = 44;

/// Why a request was refused.
#[derive(Clone, Copy, Debug, PartialEq, Eq, Structural)]
pub enum InvalidRequest {
    /// The origin is not one that the policy allows.
    DisallowedOrigin,
    /// The method that a preflight asks for is not allowed.
    DisallowedMethod,
    /// A header that a preflight asks for is not allowed.
    DisallowedHeader,
}

/// Which origins a policy allows, as the contracts see it.
pub enum OriginRule {
    Any { allow_null: bool },
    List(Seq<Seq<u8>>),
}

/// Which origins a policy allows.
#[derive(Debug)]
pub enum AllowedOrigins {
    /// Every origin; the origin `null` only if `allow_null` is set.
    Any { allow_null: bool },
    /// The listed origins and no other, compared byte for byte.
    Origins(Vec<Vec<u8>>),
}

impl View for AllowedOrigins {
    type V = OriginRule;

    open spec fn view(&self) -> OriginRule {
        match self {
            AllowedOrigins::Any { allow_null } => OriginRule::Any { allow_null: *allow_null },
            AllowedOrigins::Origins(list) => OriginRule::List(list_view(*list)),
        }
    }
}

impl Clone for AllowedOrigins {
    fn clone(&self) -> (r: Self)
        ensures
            r@ == self@,
    {
        match self {
            AllowedOrigins::Any { allow_null } => AllowedOrigins::Any { allow_null: *allow_null },
            AllowedOrigins::Origins(list) => AllowedOrigins::Origins(copy_list(list)),
        }
    }
}

impl AllowedOrigins {
    /// The listed origins and no other.
    pub fn from_iter(origins: Vec<Vec<u8>>) -> (r: AllowedOrigins)
        ensures
            r@ == OriginRule::List(list_view(origins)),
    {
        AllowedOrigins::Origins(origins)
    }
}

/// A policy as the contracts see it.
pub struct Policy {
    pub origins: OriginRule,
    pub methods: Seq<Seq<u8>>,
    pub headers: Seq<Seq<u8>>,
    pub exposed: Seq<Seq<u8>>,
    pub allow_credentials: bool,
    pub prefer_wildcard: bool,
    pub max_age: Option<u64>,
}

impl Policy {
    /// The lists of a policy are sets: nothing occurs twice in them. Header
    /// names are held in lower case, so that no header occurs twice under
    /// two spellings. Methods are tokens, header names are header names, and
    /// listed origins are header values: a response can carry them.
    pub open spec fn wf(self) -> bool {
        &&& distinct(self.methods)
        &&& distinct(self.headers)
        &&& distinct(self.exposed)
        &&& all_lower(self.headers)
        &&& all_lower(self.exposed)
        &&& all_fit(Kind::Token, self.methods)
        &&& all_fit(Kind::Name, self.headers)
        &&& all_fit(Kind::Name, self.exposed)
        &&& self.origins matches OriginRule::List(list) ==> distinct(list) && all_fit(
            Kind::Value,
            list,
        )
    }
}

/// A permitted request, as the contracts see it.
pub enum Decision {
    Preflight(Seq<Field>),
    Simple(Seq<Field>),
}

/// The fields of a permitted request.
pub open spec fn fields_of(decision: Decision) -> Seq<Field> {
    match decision {
        Decision::Preflight(fields) => fields,
        Decision::Simple(fields) => fields,
    }
}

/// The request is a preflight: an `OPTIONS` request that names the method
/// it asks for.
pub open spec fn is_preflight(request: Request) -> bool {
    request.method == text(OPTIONS) && request.requested_method is Some
}

/// The policy allows the origin.
pub open spec fn origin_allowed(rule: OriginRule, origin: Seq<u8>) -> bool {
    match rule {
        OriginRule::Any { allow_null } => allow_null || origin != text(NULL_ORIGIN),
        OriginRule::List(list) => list.contains(origin),
    }
}

/// The policy allows the method, compared byte for byte.
pub open spec fn method_allowed(policy: Policy, method: Seq<u8>) -> bool {
    policy.methods.contains(method)
}

/// The policy allows the header, compared without regard to case.
pub open spec fn header_allowed(policy: Policy, name: Seq<u8>) -> bool {
    exists|i: int| 0 <= i < policy.headers.len() && same_ignoring_case(policy.headers[i], name)
}

/// The header names that a value of `Access-Control-Request-Headers` lists:
/// its pieces between commas, each without the white space around it.
pub open spec fn requested_names(value: Seq<u8>) -> Seq<Seq<u8>> {
    Seq::new(split(value, COMMA).len(), |i: int| trim(split(value, COMMA)[i]))
}

/// The policy allows each of the names.
pub open spec fn all_allowed(policy: Policy, names: Seq<Seq<u8>>) -> bool {
    forall|i: int| 0 <= i < names.len() ==> header_allowed(policy, #[trigger] names[i])
}

/// The policy allows every header that the request asks for. A request
/// that does not say which headers it will send asks for none.
pub open spec fn headers_allowed(policy: Policy, requested: Option<Seq<u8>>) -> bool {
    match requested {
        None => true,
        Some(value) => all_allowed(policy, requested_names(value)),
    }
}

/// The request headers that a decision depends on.
pub open spec fn vary_names() -> Seq<Seq<u8>> {
    seq![
        text(ORIGIN),
        text(ACCESS_CONTROL_REQUEST_METHOD),
        text(ACCESS_CONTROL_REQUEST_HEADERS),
    ]
}

/// The value of `Vary`: the names of those headers as a list.
pub open spec fn vary_value() -> Seq<u8> {
    join(vary_names(), COMMA)
}

/// A field with a name given as text.
pub open spec fn named(name: &str, value: Seq<u8>) -> Field {
    Field { name: text(name), value }
}

/// The value of `Access-Control-Allow-Origin`: the wildcard only where the
/// policy prefers it and sends no credentials, else the origin as received.
pub open spec fn allow_origin_value(policy: Policy, origin: Seq<u8>) -> Seq<u8> {
    if policy.prefer_wildcard && !policy.allow_credentials {
        text(WILDCARD)
    } else {
        origin
    }
}

/// The fields that every permitted request with an origin gets.
pub open spec fn common_fields(policy: Policy, origin: Seq<u8>) -> Seq<Field> {
    let base = seq![
        named(VARY, vary_value()),
        named(ACCESS_CONTROL_ALLOW_ORIGIN, allow_origin_value(policy, origin)),
    ];
    if policy.allow_credentials {
        base.push(named(ACCESS_CONTROL_ALLOW_CREDENTIALS, text(TRUE)))
    } else {
        base
    }
}

/// The fields for a permitted request that is no preflight.
pub open spec fn simple_fields(policy: Policy, origin: Seq<u8>) -> Seq<Field> {
    let common = common_fields(policy, origin);
    if policy.exposed.len() > 0 {
        common.push(named(ACCESS_CONTROL_EXPOSE_HEADERS, join(policy.exposed, COMMA)))
    } else {
        common
    }
}

/// The fields for a permitted preflight.
pub open spec fn preflight_fields(policy: Policy, origin: Seq<u8>) -> Seq<Field> {
    let base = common_fields(policy, origin).push(
        named(ACCESS_CONTROL_ALLOW_METHODS, join(policy.methods, COMMA)),
    ).push(named(ACCESS_CONTROL_ALLOW_HEADERS, join(policy.headers, COMMA)));
    match policy.max_age {
        Some(seconds) => base.push(named(ACCESS_CONTROL_MAX_AGE, decimal(seconds as nat))),
        None => base,
    }
}

/// The fields can be sent: each has a header name and a header value, and
/// there are no more of them than a decision has.
pub open spec fn can_be_sent(fields: Seq<Field>) -> bool {
    all_valid(fields) && fields.len() <= 6
}

/// What the policy decides of a request.
///
/// A request without an origin is no cross-origin request: it is permitted
/// and gets no header. Otherwise the origin is tested first, then, for a
/// preflight, the method and the headers that it asks for.
pub open spec fn evaluate(policy: Policy, request: Request) -> Result<Decision, InvalidRequest> {
    match request.origin {
        None => Ok(Decision::Simple(Seq::empty())),
        Some(origin) => {
            if !origin_allowed(policy.origins, origin) {
                Err(InvalidRequest::DisallowedOrigin)
            } else if !is_preflight(request) {
                Ok(Decision::Simple(simple_fields(policy, origin)))
            } else if !method_allowed(policy, request.requested_method.unwrap()) {
                Err(InvalidRequest::DisallowedMethod)
            } else if !headers_allowed(policy, request.requested_headers) {
                Err(InvalidRequest::DisallowedHeader)
            } else {
                Ok(Decision::Preflight(preflight_fields(policy, origin)))
            }
        },
    }
}

/// The fields of a decision can be sent: under a policy, and for an origin
/// that is a header value, each has a header name and a header value.
/// There are at most six of them.
pub proof fn lemma_decision_is_valid(policy: Policy, origin: Seq<u8>)
    requires
        policy.wf(),
        valid_value(origin),
    ensures
        all_valid(simple_fields(policy, origin)),
        all_valid(preflight_fields(policy, origin)),
        simple_fields(policy, origin).len() <= 4,
        preflight_fields(policy, origin).len() <= 6,
{
    broadcast use vstd::string::group_string_axioms;

    lemma_names_are_valid();
    reveal_strlit("origin");
    reveal_strlit("access-control-request-method");
    reveal_strlit("access-control-request-headers");
    reveal_strlit("*");
    reveal_strlit("true");
    assert(vstd::string::is_ascii(ORIGIN));
    assert(vstd::string::is_ascii(ACCESS_CONTROL_REQUEST_METHOD));
    assert(vstd::string::is_ascii(ACCESS_CONTROL_REQUEST_HEADERS));
    assert(vstd::string::is_ascii(WILDCARD));
    assert(vstd::string::is_ascii(TRUE));
    assert(valid_value(text(WILDCARD)));
    assert(valid_value(text(TRUE)));
    let names = vary_names();
    assert(names[0] == text(ORIGIN));
    assert(names[1] == text(ACCESS_CONTROL_REQUEST_METHOD));
    assert(names[2] == text(ACCESS_CONTROL_REQUEST_HEADERS));
    assert(all_fit(Kind::Token, names));
    lemma_fit_as_values(Kind::Token, names);
    lemma_join_is_value(names);
    lemma_fit_as_values(Kind::Token, policy.methods);
    lemma_join_is_value(policy.methods);
    lemma_fit_as_values(Kind::Name, policy.headers);
    lemma_join_is_value(policy.headers);
    lemma_fit_as_values(Kind::Name, policy.exposed);
    lemma_join_is_value(policy.exposed);
    if policy.max_age is Some {
        lemma_decimal_is_value(policy.max_age.unwrap() as nat);
    }
    assert(valid_value(allow_origin_value(policy, origin)));
    assert(all_valid(common_fields(policy, origin)));
}

/// Computes [`vary_value`].
pub fn vary() -> (r: Vec<u8>)
    ensures
        r@ == vary_value(),
{
    let mut names: Vec<Vec<u8>> = Vec::new();
    names.push(literal(ORIGIN));
    names.push(literal(ACCESS_CONTROL_REQUEST_METHOD));
    names.push(literal(ACCESS_CONTROL_REQUEST_HEADERS));
    assert(list_view(names) =~= vary_names());
    join_list(&names, COMMA)
}

/// A permitted request and the headers that its response gets.
#[derive(Debug)]
pub enum CorsResource {
    /// A preflight: the response ends here, with these headers.
    Preflight(HeaderSet),
    /// Any other request: it goes on, and its response gets these headers.
    Simple(HeaderSet),
}

impl View for CorsResource {
    type V = Decision;

    open spec fn view(&self) -> Decision {
        match self {
            CorsResource::Preflight(headers) => Decision::Preflight(headers@),
            CorsResource::Simple(headers) => Decision::Simple(headers@),
        }
    }
}

impl CorsResource {
    /// The headers, whichever kind of request it was.
    pub fn into_headers(self) -> (r: HeaderSet)
        ensures
            r@ == match self@ {
                Decision::Preflight(fields) => fields,
                Decision::Simple(fields) => fields,
            },
    {
        match self {
            CorsResource::Preflight(headers) => headers,
            CorsResource::Simple(headers) => headers,
        }
    }

    /// The headers of a request that was no preflight.
    pub fn into_simple(self) -> (r: Option<HeaderSet>)
        ensures
            match r {
                Some(headers) => self@ == Decision::Simple(headers@),
                None => self@ is Preflight,
            },
    {
        match self {
            CorsResource::Simple(headers) => Some(headers),
            CorsResource::Preflight(_) => None,
        }
    }

    /// The headers of a preflight.
    pub fn into_preflight(self) -> (r: Option<HeaderSet>)
        ensures
            match r {
                Some(headers) => self@ == Decision::Preflight(headers@),
                None => self@ is Simple,
            },
    {
        match self {
            CorsResource::Preflight(headers) => Some(headers),
            CorsResource::Simple(_) => None,
        }
    }
}

/// What a decision is, as the contracts see it.
pub open spec fn outcome(result: Result<CorsResource, InvalidRequest>) -> Result<
    Decision,
    InvalidRequest,
> {
    match result {
        Ok(resource) => Ok(resource@),
        Err(reason) => Err(reason),
    }
}

/// A resolved policy. It does not change once it is made.
#[derive(Debug)]
pub struct Config {
    allowed_origins: AllowedOrigins,
    allowed_methods: Vec<Vec<u8>>,
    allowed_headers: Vec<Vec<u8>>,
    exposed_headers: Vec<Vec<u8>>,
    allow_credentials: bool,
    prefer_wildcard: bool,
    max_age: Option<u64>,
}

impl View for Config {
    type V = Policy;

    closed spec fn view(&self) -> Policy {
        Policy {
            origins: self.allowed_origins@,
            methods: list_view(self.allowed_methods),
            headers: list_view(self.allowed_headers),
            exposed: list_view(self.exposed_headers),
            allow_credentials: self.allow_credentials,
            prefer_wildcard: self.prefer_wildcard,
            max_age: self.max_age,
        }
    }
}

impl Clone for Config {
    fn clone(&self) -> (r: Self)
        ensures
            r@ == self@,
    {
        proof {
            use_type_invariant(self);
        }
        Config {
            allowed_origins: self.allowed_origins.clone(),
            allowed_methods: copy_list(&self.allowed_methods),
            allowed_headers: copy_list(&self.allowed_headers),
            exposed_headers: copy_list(&self.exposed_headers),
            allow_credentials: self.allow_credentials,
            prefer_wildcard: self.prefer_wildcard,
            max_age: self.max_age,
        }
    }
}

impl Config {
    #[verifier::type_invariant]
    closed spec fn inv(self) -> bool {
        self@.wf()
    }

    /// Makes a policy of lists that are sets already.
    pub(crate) fn from_parts(
        allowed_origins: AllowedOrigins,
        allowed_methods: Vec<Vec<u8>>,
        allowed_headers: Vec<Vec<u8>>,
        exposed_headers: Vec<Vec<u8>>,
        allow_credentials: bool,
        prefer_wildcard: bool,
        max_age: Option<u64>,
    ) -> (r: Config)
        requires
            (Policy {
                origins: allowed_origins@,
                methods: list_view(allowed_methods),
                headers: list_view(allowed_headers),
                exposed: list_view(exposed_headers),
                allow_credentials,
                prefer_wildcard,
                max_age,
            }).wf(),
        ensures
            r@ == (Policy {
                origins: allowed_origins@,
                methods: list_view(allowed_methods),
                headers: list_view(allowed_headers),
                exposed: list_view(exposed_headers),
                allow_credentials,
                prefer_wildcard,
                max_age,
            }),
    {
        Config {
            allowed_origins,
            allowed_methods,
            allowed_headers,
            exposed_headers,
            allow_credentials,
            prefer_wildcard,
            max_age,
        }
    }

    /// Tests the origin against the allowed origins.
    pub fn check_origin(&self, origin: &[u8]) -> (r: Result<(), InvalidRequest>)
        ensures
            r is Ok <==> origin_allowed(self@.origins, origin@),
            r is Err ==> r == Err::<(), InvalidRequest>(InvalidRequest::DisallowedOrigin),
    {
        let allowed = match &self.allowed_origins {
            AllowedOrigins::Any { allow_null } => {
                *allow_null || !bytes_eq(origin, NULL_ORIGIN.as_bytes())
            },
            AllowedOrigins::Origins(list) => contains(list, origin),
        };
        if allowed {
            Ok(())
        } else {
            Err(InvalidRequest::DisallowedOrigin)
        }
    }

    /// Tests the method that a preflight asks for against the allowed methods.
    pub fn check_method(&self, method: &[u8]) -> (r: Result<(), InvalidRequest>)
        ensures
            r is Ok <==> method_allowed(self@, method@),
            r is Err ==> r == Err::<(), InvalidRequest>(InvalidRequest::DisallowedMethod),
    {
        if contains(&self.allowed_methods, method) {
            Ok(())
        } else {
            Err(InvalidRequest::DisallowedMethod)
        }
    }

    /// Tests each header that a preflight asks for against the allowed headers.
    pub fn check_headers(&self, requested: &Option<Vec<u8>>) -> (r: Result<(), InvalidRequest>)
        ensures
            r is Ok <==> headers_allowed(self@, bytes_of(*requested)),
            r is Err ==> r == Err::<(), InvalidRequest>(InvalidRequest::DisallowedHeader),
    {
        match requested {
            None => Ok(()),
            Some(value) => {
                let pieces = split_list(value.as_slice(), COMMA);
                let mut i: usize = 0;
                while i < pieces.len()
                    invariant
                        i <= pieces.len(),
                        *requested == Some(*value),
                        list_view(pieces) == split(value@, COMMA),
                        forall|k: int|
                            0 <= k < i ==> header_allowed(
                                self@,
                                #[trigger] requested_names(value@)[k],
                            ),
                    decreases pieces.len() - i,
                {
                    let name = trimmed(pieces[i].as_slice());
                    assert(name@ == requested_names(value@)[i as int]);
                    if !contains_ignoring_case(&self.allowed_headers, name.as_slice()) {
                        assert(!header_allowed(self@, requested_names(value@)[i as int]));
                        return Err(InvalidRequest::DisallowedHeader);
                    }
                    i += 1;
                }
                Ok(())
            },
        }
    }

    /// The headers that every permitted request with an origin gets.
    pub fn common_headers(&self, origin: &[u8]) -> (r: HeaderSet)
        ensures
            r@ == common_fields(self@, origin@),
    {
        let mut headers = HeaderSet::new();
        headers.append(literal(VARY), vary());
        let allow_origin = if self.prefer_wildcard && !self.allow_credentials {
            literal(WILDCARD)
        } else {
            to_vec(origin)
        };
        headers.append(literal(ACCESS_CONTROL_ALLOW_ORIGIN), allow_origin);
        if self.allow_credentials {
            headers.append(literal(ACCESS_CONTROL_ALLOW_CREDENTIALS), literal(TRUE));
        }
        assert(headers@ =~= common_fields(self@, origin@));
        headers
    }

    /// The headers for a permitted request that is no preflight.
    pub fn simple_headers(&self, origin: &[u8]) -> (r: HeaderSet)
        ensures
            r@ == simple_fields(self@, origin@),
    {
        let mut headers = self.common_headers(origin);
        if self.exposed_headers.len() > 0 {
            headers.append(
                literal(ACCESS_CONTROL_EXPOSE_HEADERS),
                join_list(&self.exposed_headers, COMMA),
            );
        }
        headers
    }

    /// The headers for a permitted preflight.
    pub fn preflight_headers(&self, origin: &[u8]) -> (r: HeaderSet)
        ensures
            r@ == preflight_fields(self@, origin@),
    {
        let mut headers = self.common_headers(origin);
        headers.append(
            literal(ACCESS_CONTROL_ALLOW_METHODS),
            join_list(&self.allowed_methods, COMMA),
        );
        headers.append(
            literal(ACCESS_CONTROL_ALLOW_HEADERS),
            join_list(&self.allowed_headers, COMMA),
        );
        match self.max_age {
            Some(seconds) => {
                headers.append(literal(ACCESS_CONTROL_MAX_AGE), decimal_digits(seconds));
            },
            None => {},
        }
        headers
    }

    /// Decides whether the policy permits the request, and with which
    /// headers its response is to be sent.
    pub fn process_request(&self, request: &RequestView) -> (r: Result<
        CorsResource,
        InvalidRequest,
    >)
        ensures
            outcome(r) == evaluate(self@, request@),
            self@.wf(),
            sendable(request@) ==> (outcome(r) matches Ok(decision) ==> can_be_sent(
                fields_of(decision),
            )),
    {
        proof {
            use_type_invariant(self);
            if request@.origin is Some && valid_value(request@.origin.unwrap()) {
                lemma_decision_is_valid(self@, request@.origin.unwrap());
            }
        }
        match &request.origin {
            None => Ok(CorsResource::Simple(HeaderSet::new())),
            Some(origin) => {
                match self.check_origin(origin.as_slice()) {
                    Err(reason) => {
                        return Err(reason);
                    },
                    Ok(_) => {},
                }
                let preflight = bytes_eq(request.method.as_slice(), OPTIONS.as_bytes());
                match (&request.requested_method, preflight) {
                    (Some(method), true) => {
                        match self.check_method(method.as_slice()) {
                            Err(reason) => {
                                return Err(reason);
                            },
                            Ok(_) => {},
                        }
                        match self.check_headers(&request.requested_headers) {
                            Err(reason) => {
                                return Err(reason);
                            },
                            Ok(_) => {},
                        }
                        Ok(CorsResource::Preflight(self.preflight_headers(origin.as_slice())))
                    },
                    _ => Ok(CorsResource::Simple(self.simple_headers(origin.as_slice()))),
                }
            },
        }
    }
}

} // verus!
