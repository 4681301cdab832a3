//! What holds of every policy and every request.

use super::config::{
    allow_origin_value, evaluate, fields_of, lemma_decision_is_valid, header_allowed, headers_allowed, is_preflight, method_allowed,
    preflight_fields, simple_fields, vary_names, vary_value, Decision, InvalidRequest,
    OriginRule, Policy, COMMA, NULL_ORIGIN, TRUE, WILDCARD,
};
use super::headers::{
    all_valid, distinct_names, lemma_lookup_absent, lemma_lookup_first, lemma_names_differ, lookup, Field,
    ACCESS_CONTROL_ALLOW_CREDENTIALS, ACCESS_CONTROL_ALLOW_HEADERS, ACCESS_CONTROL_ALLOW_METHODS,
    ACCESS_CONTROL_ALLOW_ORIGIN, ACCESS_CONTROL_EXPOSE_HEADERS, ACCESS_CONTROL_MAX_AGE, VARY,
};
use super::lists::{distinct, lowered};
use super::request::{
    sendable, Request, ACCESS_CONTROL_REQUEST_HEADERS, ACCESS_CONTROL_REQUEST_METHOD, ORIGIN,
};
use super::service::{
    plan, plan_fields, reply_of, tagged, tags, Answer, Plan, FORBIDDEN, NO_CONTENT,
};
use super::text::{
    decimal, join, lemma_join_split, lemma_same_ignoring_case, same_ignoring_case, split, text,
};
use super::valid::{lemma_fit_as_values, Kind};
use super::wire::{
    has_room, lemma_appended_values, lemma_named_values, named_values, values_of,
};
use vstd::prelude::*;

verus! {

/// A preflight asks only for what the policy allows; of a request that is
/// no preflight this asks nothing.
pub open spec fn asks_for_allowed(policy: Policy, request: Request) -> bool {
    is_preflight(request) ==> method_allowed(policy, request.requested_method.unwrap())
        && headers_allowed(policy, request.requested_headers)
}

/// Equality up to case holds of a name and itself, and in both orders.
proof fn lemma_names()
    ensures
        forall|a: Seq<u8>| #[trigger] same_ignoring_case(a, a),
        forall|a: Seq<u8>, b: Seq<u8>| #[trigger]
            same_ignoring_case(a, b) ==> same_ignoring_case(b, a),
{
    assert forall|a: Seq<u8>, b: Seq<u8>| #[trigger]
        same_ignoring_case(a, b) implies same_ignoring_case(b, a) by {
        lemma_same_ignoring_case(a, b, a);
    }
    assert forall|a: Seq<u8>| #[trigger] same_ignoring_case(a, a) by {
        lemma_same_ignoring_case(a, a, a);
    }
}

/// What each header of a permitted request that is no preflight is.
pub proof fn lemma_simple_lookups(policy: Policy, origin: Seq<u8>)
    ensures
        lookup(simple_fields(policy, origin), text(VARY)) == Some(vary_value()),
        lookup(simple_fields(policy, origin), text(ACCESS_CONTROL_ALLOW_ORIGIN)) == Some(
            allow_origin_value(policy, origin),
        ),
        lookup(simple_fields(policy, origin), text(ACCESS_CONTROL_ALLOW_CREDENTIALS)) == if policy.allow_credentials {
            Some(text(TRUE))
        } else {
            None
        },
        lookup(simple_fields(policy, origin), text(ACCESS_CONTROL_EXPOSE_HEADERS)) == if policy.exposed.len()
            > 0 {
            Some(join(policy.exposed, COMMA))
        } else {
            None
        },
        lookup(simple_fields(policy, origin), text(ACCESS_CONTROL_ALLOW_METHODS)) is None,
        lookup(simple_fields(policy, origin), text(ACCESS_CONTROL_ALLOW_HEADERS)) is None,
        lookup(simple_fields(policy, origin), text(ACCESS_CONTROL_MAX_AGE)) is None,
{
    lemma_names_differ();
    lemma_names();
    let fields = simple_fields(policy, origin);
    let exposed = if policy.allow_credentials {
        3int
    } else {
        2int
    };
    lemma_lookup_first(fields, 0, text(VARY));
    lemma_lookup_first(fields, 1, text(ACCESS_CONTROL_ALLOW_ORIGIN));
    if policy.allow_credentials {
        lemma_lookup_first(fields, 2, text(ACCESS_CONTROL_ALLOW_CREDENTIALS));
    } else {
        lemma_lookup_absent(fields, text(ACCESS_CONTROL_ALLOW_CREDENTIALS));
    }
    if policy.exposed.len() > 0 {
        lemma_lookup_first(fields, exposed, text(ACCESS_CONTROL_EXPOSE_HEADERS));
    } else {
        lemma_lookup_absent(fields, text(ACCESS_CONTROL_EXPOSE_HEADERS));
    }
    lemma_lookup_absent(fields, text(ACCESS_CONTROL_ALLOW_METHODS));
    lemma_lookup_absent(fields, text(ACCESS_CONTROL_ALLOW_HEADERS));
    lemma_lookup_absent(fields, text(ACCESS_CONTROL_MAX_AGE));
}

/// What each header of a permitted preflight is.
pub proof fn lemma_preflight_lookups(policy: Policy, origin: Seq<u8>)
    ensures
        lookup(preflight_fields(policy, origin), text(VARY)) == Some(vary_value()),
        lookup(preflight_fields(policy, origin), text(ACCESS_CONTROL_ALLOW_ORIGIN)) == Some(
            allow_origin_value(policy, origin),
        ),
        lookup(preflight_fields(policy, origin), text(ACCESS_CONTROL_ALLOW_CREDENTIALS)) == if policy.allow_credentials {
            Some(text(TRUE))
        } else {
            None
        },
        lookup(preflight_fields(policy, origin), text(ACCESS_CONTROL_ALLOW_METHODS)) == Some(
            join(policy.methods, COMMA),
        ),
        lookup(preflight_fields(policy, origin), text(ACCESS_CONTROL_ALLOW_HEADERS)) == Some(
            join(policy.headers, COMMA),
        ),
        lookup(preflight_fields(policy, origin), text(ACCESS_CONTROL_MAX_AGE)) == match policy.max_age {
            Some(seconds) => Some(decimal(seconds as nat)),
            None => None,
        },
        lookup(preflight_fields(policy, origin), text(ACCESS_CONTROL_EXPOSE_HEADERS)) is None,
{
    lemma_names_differ();
    lemma_names();
    let fields = preflight_fields(policy, origin);
    let methods = if policy.allow_credentials {
        3int
    } else {
        2int
    };
    lemma_lookup_first(fields, 0, text(VARY));
    lemma_lookup_first(fields, 1, text(ACCESS_CONTROL_ALLOW_ORIGIN));
    if policy.allow_credentials {
        lemma_lookup_first(fields, 2, text(ACCESS_CONTROL_ALLOW_CREDENTIALS));
    } else {
        lemma_lookup_absent(fields, text(ACCESS_CONTROL_ALLOW_CREDENTIALS));
    }
    lemma_lookup_first(fields, methods, text(ACCESS_CONTROL_ALLOW_METHODS));
    lemma_lookup_first(fields, methods + 1, text(ACCESS_CONTROL_ALLOW_HEADERS));
    if policy.max_age is Some {
        lemma_lookup_first(fields, methods + 2, text(ACCESS_CONTROL_MAX_AGE));
    } else {
        lemma_lookup_absent(fields, text(ACCESS_CONTROL_MAX_AGE));
    }
    lemma_lookup_absent(fields, text(ACCESS_CONTROL_EXPOSE_HEADERS));
}

/// The fields of a decision all have different names.
pub proof fn lemma_decision_names(policy: Policy, origin: Seq<u8>)
    ensures
        distinct_names(simple_fields(policy, origin)),
        distinct_names(preflight_fields(policy, origin)),
{
    lemma_names_differ();
    lemma_names();
}

/// The value of `Vary` is a list of exactly the three request headers
/// that a decision depends on.
pub proof fn lemma_vary_lists_names()
    ensures
        split(vary_value(), COMMA) == vary_names(),
        vary_names().contains(text(ORIGIN)),
        vary_names().contains(text(ACCESS_CONTROL_REQUEST_METHOD)),
        vary_names().contains(text(ACCESS_CONTROL_REQUEST_HEADERS)),
{
    broadcast use vstd::string::group_string_axioms;

    reveal_strlit("origin");
    reveal_strlit("access-control-request-method");
    reveal_strlit("access-control-request-headers");
    assert(vstd::string::is_ascii(ORIGIN));
    assert(vstd::string::is_ascii(ACCESS_CONTROL_REQUEST_METHOD));
    assert(vstd::string::is_ascii(ACCESS_CONTROL_REQUEST_HEADERS));
    let names = vary_names();
    assert(names[0] == text(ORIGIN));
    assert(names[1] == text(ACCESS_CONTROL_REQUEST_METHOD));
    assert(names[2] == text(ACCESS_CONTROL_REQUEST_HEADERS));
    assert forall|i: int| 0 <= i < names.len() implies !(#[trigger] names[i]).contains(COMMA) by {
        if names[i].contains(COMMA) {
            let k = choose|k: int| 0 <= k < names[i].len() && names[i][k] == COMMA;
            assert(names[i][k] != 44);
        }
    }
    lemma_join_split(names, COMMA);
}

/// Under a policy that allows any origin, a request whose origin is not
/// `null` is permitted. A preflight has to ask for a method and for
/// headers that the policy allows.
pub proof fn law_any_origin_is_permitted(policy: Policy, request: Request, origin: Seq<u8>)
    requires
        policy.origins == (OriginRule::Any { allow_null: false }),
        request.origin == Some(origin),
        origin != text(NULL_ORIGIN),
        asks_for_allowed(policy, request),
    ensures
        evaluate(policy, request) is Ok,
{
}

/// Under a policy that allows any origin but `null`, a request whose
/// origin is `null` is refused for its origin, whatever else it asks. Where
/// the policy allows `null` too, the request is permitted; a preflight has
/// to ask for a method and for headers that the policy allows.
pub proof fn law_null_origin(policy: Policy, request: Request)
    requires
        policy.origins is Any,
        request.origin == Some(text(NULL_ORIGIN)),
    ensures
        !policy.origins->allow_null ==> evaluate(policy, request) == Err::<
            Decision,
            InvalidRequest,
        >(InvalidRequest::DisallowedOrigin),
        policy.origins->allow_null && asks_for_allowed(policy, request) ==> evaluate(
            policy,
            request,
        ) is Ok,
{
}

/// Under a policy that lists its origins, a request is refused for its
/// origin exactly if the origin is not, byte for byte, in the list. A
/// request with a listed origin is permitted; a preflight has to ask for a
/// method and for headers that the policy allows.
pub proof fn law_listed_origins(
    policy: Policy,
    request: Request,
    origin: Seq<u8>,
    list: Seq<Seq<u8>>,
)
    requires
        policy.origins == OriginRule::List(list),
        request.origin == Some(origin),
    ensures
        !list.contains(origin) <==> evaluate(policy, request) == Err::<Decision, InvalidRequest>(
            InvalidRequest::DisallowedOrigin,
        ),
        list.contains(origin) && asks_for_allowed(policy, request) ==> evaluate(
            policy,
            request,
        ) is Ok,
{
}

/// The response to a permitted request with an origin has a `Vary` header
/// that lists `Origin`, `Access-Control-Request-Method` and
/// `Access-Control-Request-Headers`, for a preflight and for any other
/// request.
pub proof fn law_vary(policy: Policy, request: Request, decision: Decision)
    requires
        request.origin is Some,
        evaluate(policy, request) == Ok::<Decision, InvalidRequest>(decision),
    ensures
        lookup(fields_of(decision), text(VARY)) == Some(vary_value()),
        split(vary_value(), COMMA).contains(text(ORIGIN)),
        split(vary_value(), COMMA).contains(text(ACCESS_CONTROL_REQUEST_METHOD)),
        split(vary_value(), COMMA).contains(text(ACCESS_CONTROL_REQUEST_HEADERS)),
{
    let origin = request.origin.unwrap();
    lemma_simple_lookups(policy, origin);
    lemma_preflight_lookups(policy, origin);
    lemma_vary_lists_names();
}

/// Where the policy allows credentials, the response to a permitted
/// request with an origin says so, and names the request's origin as it
/// was received, whether or not the policy prefers the wildcard.
pub proof fn law_credentials(policy: Policy, request: Request, decision: Decision)
    requires
        policy.allow_credentials,
        request.origin is Some,
        evaluate(policy, request) == Ok::<Decision, InvalidRequest>(decision),
    ensures
        lookup(fields_of(decision), text(ACCESS_CONTROL_ALLOW_CREDENTIALS)) == Some(text(TRUE)),
        lookup(fields_of(decision), text(ACCESS_CONTROL_ALLOW_ORIGIN)) == request.origin,
{
    let origin = request.origin.unwrap();
    lemma_simple_lookups(policy, origin);
    lemma_preflight_lookups(policy, origin);
}

/// Where the policy allows no credentials, the response to a permitted
/// request with an origin has no `Access-Control-Allow-Credentials`
/// header; it names the wildcard if the policy prefers it, and else the
/// request's origin as it was received.
pub proof fn law_allow_origin(policy: Policy, request: Request, decision: Decision)
    requires
        !policy.allow_credentials,
        request.origin is Some,
        evaluate(policy, request) == Ok::<Decision, InvalidRequest>(decision),
    ensures
        lookup(fields_of(decision), text(ACCESS_CONTROL_ALLOW_CREDENTIALS)) is None,
        policy.prefer_wildcard ==> lookup(fields_of(decision), text(ACCESS_CONTROL_ALLOW_ORIGIN))
            == Some(text(WILDCARD)),
        !policy.prefer_wildcard ==> lookup(
            fields_of(decision),
            text(ACCESS_CONTROL_ALLOW_ORIGIN),
        ) == request.origin,
{
    let origin = request.origin.unwrap();
    lemma_simple_lookups(policy, origin);
    lemma_preflight_lookups(policy, origin);
}

/// The response to a permitted preflight lists all the methods of the
/// policy, whichever of them the preflight asked for: two permitted
/// preflights get the same list.
pub proof fn law_allowed_methods(
    policy: Policy,
    first: Request,
    second: Request,
    one: Seq<Field>,
    other: Seq<Field>,
)
    requires
        evaluate(policy, first) == Ok::<Decision, InvalidRequest>(Decision::Preflight(one)),
        evaluate(policy, second) == Ok::<Decision, InvalidRequest>(Decision::Preflight(other)),
    ensures
        lookup(one, text(ACCESS_CONTROL_ALLOW_METHODS)) == Some(join(policy.methods, COMMA)),
        lookup(other, text(ACCESS_CONTROL_ALLOW_METHODS)) == lookup(
            one,
            text(ACCESS_CONTROL_ALLOW_METHODS),
        ),
{
    lemma_preflight_lookups(policy, first.origin.unwrap());
    lemma_preflight_lookups(policy, second.origin.unwrap());
}

/// Tagging is additive. Each header of the tagged response has the values
/// that the handler behind gave it, in their order, and after them the
/// values that the decision gives it: no header is lost, and no value.
pub proof fn law_tagging_is_additive(
    handling: Plan,
    response: Map<Seq<u8>, Seq<Seq<u8>>>,
    name: Seq<u8>,
)
    ensures
        response.contains_key(lowered(name)) ==> tagged(handling, response).contains_key(
            lowered(name),
        ),
        values_of(tagged(handling, response), name) == values_of(response, name) + named_values(
            tags(handling),
            name,
        ),
{
    lemma_appended_values(response, tags(handling), name);
}

/// The tagged response to a permitted request carries each header of the
/// decision with the decision's value, after the values that the handler
/// behind gave that header; a header that the decision does not name has
/// the handler's values and no other.
pub proof fn law_tagging_carries_the_decision(
    policy: Policy,
    request: Request,
    response: Map<Seq<u8>, Seq<Seq<u8>>>,
    name: Seq<u8>,
)
    ensures
        values_of(tagged(plan(policy, request), response), name) == values_of(response, name)
            + match lookup(tags(plan(policy, request)), name) {
            Some(value) => seq![value],
            None => Seq::<Seq<u8>>::empty(),
        },
{
    let fields = tags(plan(policy, request));
    if request.origin is Some {
        lemma_decision_names(policy, request.origin.unwrap());
    }
    lemma_named_values(fields, name);
    lemma_appended_values(response, fields, name);
}

/// Tagging succeeds, and so does the answer to a preflight: under a
/// policy, and for a request whose origin is a header value, the fields
/// of the plan have header names and header values, and a response with
/// room for six more header names has room for them.
pub proof fn law_plans_can_be_sent(
    policy: Policy,
    request: Request,
    response: Map<Seq<u8>, Seq<Seq<u8>>>,
)
    requires
        policy.wf(),
        sendable(request),
    ensures
        all_valid(plan_fields(plan(policy, request))),
        plan_fields(plan(policy, request)).len() <= 6,
        all_valid(tags(plan(policy, request))),
        has_room(response, 6) ==> has_room(response, tags(plan(policy, request)).len()),
{
    if request.origin is Some {
        lemma_decision_is_valid(policy, request.origin.unwrap());
    }
}

/// A refusal is answered the same way whatever its reason: forbidden, and
/// without a header. A permitted preflight is answered with no content and
/// the decision's headers. In both cases the handler behind is not called;
/// it is called for every other permitted request, and only then.
pub proof fn law_replies(policy: Policy, request: Request)
    ensures
        evaluate(policy, request) is Err ==> reply_of(plan(policy, request)) == Some(
            Answer { status: FORBIDDEN, fields: Seq::empty() },
        ),
        evaluate(policy, request) matches Ok(Decision::Preflight(fields)) ==> reply_of(
            plan(policy, request),
        ) == Some(Answer { status: NO_CONTENT, fields }),
        evaluate(policy, request) matches Ok(Decision::Simple(fields)) ==> reply_of(
            plan(policy, request),
        ) is None && plan(policy, request) == Plan::Forwarded(fields),
{
}

/// Whether a header that a preflight asks for is allowed does not depend
/// on the case in which the preflight writes it.
pub proof fn law_header_names_ignore_case(policy: Policy, one: Seq<u8>, other: Seq<u8>)
    requires
        same_ignoring_case(one, other),
    ensures
        header_allowed(policy, one) == header_allowed(policy, other),
{
    if header_allowed(policy, one) {
        let i = choose|i: int|
            0 <= i < policy.headers.len() && same_ignoring_case(policy.headers[i], one);
        lemma_same_ignoring_case(policy.headers[i], one, other);
    }
    if header_allowed(policy, other) {
        let i = choose|i: int|
            0 <= i < policy.headers.len() && same_ignoring_case(policy.headers[i], other);
        lemma_same_ignoring_case(one, other, one);
        lemma_same_ignoring_case(policy.headers[i], other, one);
    }
}

/// A list in a header value is a set: where a policy has at least one
/// item in a list, the value lists exactly the items of the policy, each
/// once.
pub proof fn law_lists_are_sets(policy: Policy, items: Seq<Seq<u8>>)
    requires
        policy.wf(),
        items == policy.methods || items == policy.headers || items == policy.exposed,
        items.len() >= 1,
    ensures
        split(join(items, COMMA), COMMA) == items,
        distinct(split(join(items, COMMA), COMMA)),
{
    if items == policy.methods {
        lemma_fit_as_values(Kind::Token, items);
    } else {
        lemma_fit_as_values(Kind::Name, items);
    }
    lemma_join_split(items, COMMA);
}

/// A request without an origin is permitted and gets no header.
pub proof fn law_no_origin(policy: Policy, request: Request)
    requires
        request.origin is None,
    ensures
        evaluate(policy, request) == Ok::<Decision, InvalidRequest>(
            Decision::Simple(Seq::empty()),
        ),
{
}

} // verus!
