//! What a middleware does with an exchange once the policy has decided.

use super::config::{
    can_be_sent, evaluate, outcome, Config, CorsResource, Decision, InvalidRequest, Policy,
};
use super::headers::{all_valid, Field, HeaderSet};
use super::request::{sendable, Request, RequestView};
use super::wire::{
    appended, has_room, header_map_fields, no_fields, read_request, refused_at, request_of,
    to_header_map, write_fields, ROOM,
};
use http::header::{HeaderMap, HeaderValue};
use std::sync::Arc;
use vstd::prelude::*;

verus! {

/// The status of the answer to a request that the policy refuses.
pub const FORBIDDEN: u16 = 403;

/// The status of the answer to a permitted preflight.
pub const NO_CONTENT: u16 = 204;

/// What is to be done with a request, as the contracts see it.
pub enum Plan {
    Denied(InvalidRequest),
    Answered(Seq<Field>),
    Forwarded(Seq<Field>),
}

/// What is to be done with a request.
#[derive(Debug)]
pub enum Handling {
    /// The policy refuses the request. It is answered at once, and the
    /// handler behind is not called. The reason is for the log.
    Denied(InvalidRequest),
    /// A permitted preflight. It is answered at once with these headers,
    /// and the handler behind is not called.
    Answered(HeaderSet),
    /// Any other permitted request. The handler behind is called, and
    /// its response gets these headers.
    Forwarded(HeaderSet),
}

impl View for Handling {
    type V = Plan;

    open spec fn view(&self) -> Plan {
        match self {
            Handling::Denied(reason) => Plan::Denied(*reason),
            Handling::Answered(headers) => Plan::Answered(headers@),
            Handling::Forwarded(headers) => Plan::Forwarded(headers@),
        }
    }
}

/// A response that is sent without calling the handler behind. It has no
/// body.
#[derive(Debug)]
pub struct Reply {
    pub status: u16,
    pub headers: HeaderSet,
}

/// A reply as the contracts see it: its status and its fields.
pub struct Answer {
    pub status: u16,
    pub fields: Seq<Field>,
}

impl View for Reply {
    type V = Answer;

    open spec fn view(&self) -> Answer {
        Answer { status: self.status, fields: self.headers@ }
    }
}

/// What is to be done after a decision.
pub open spec fn plan_of(decision: Result<Decision, InvalidRequest>) -> Plan {
    match decision {
        Err(reason) => Plan::Denied(reason),
        Ok(Decision::Preflight(fields)) => Plan::Answered(fields),
        Ok(Decision::Simple(fields)) => Plan::Forwarded(fields),
    }
}

/// What is to be done with a request under a policy.
pub open spec fn plan(policy: Policy, request: Request) -> Plan {
    plan_of(evaluate(policy, request))
}

/// The response that ends the exchange at once, if the plan has one: a
/// refusal says nothing of the policy, not even why.
pub open spec fn reply_of(plan: Plan) -> Option<Answer> {
    match plan {
        Plan::Denied(_) => Some(Answer { status: FORBIDDEN, fields: Seq::empty() }),
        Plan::Answered(fields) => Some(Answer { status: NO_CONTENT, fields }),
        Plan::Forwarded(_) => None,
    }
}

/// The fields that a plan sends: none for a refusal.
pub open spec fn plan_fields(plan: Plan) -> Seq<Field> {
    match plan {
        Plan::Denied(_) => Seq::empty(),
        Plan::Answered(fields) => fields,
        Plan::Forwarded(fields) => fields,
    }
}

/// The fields that are added to the response of the handler behind: the
/// decision's fields where the request was forwarded, and none otherwise.
pub open spec fn tags(plan: Plan) -> Seq<Field> {
    match plan {
        Plan::Forwarded(fields) => fields,
        _ => Seq::empty(),
    }
}

/// What the headers of the response that goes back hold, given what the
/// headers of the response of the handler behind hold: the decision's
/// fields are added to them, and nothing is taken away.
pub open spec fn tagged(plan: Plan, response: Map<Seq<u8>, Seq<Seq<u8>>>) -> Map<
    Seq<u8>,
    Seq<Seq<u8>>,
> {
    appended(response, tags(plan))
}

impl Handling {
    /// What follows from a decision.
    pub fn from_decision(decision: Result<CorsResource, InvalidRequest>) -> (r: Handling)
        ensures
            r@ == plan_of(outcome(decision)),
    {
        match decision {
            Err(reason) => Handling::Denied(reason),
            Ok(CorsResource::Preflight(headers)) => Handling::Answered(headers),
            Ok(CorsResource::Simple(headers)) => Handling::Forwarded(headers),
        }
    }

    /// Whether the handler behind is to be called.
    pub fn forwards(&self) -> (r: bool)
        ensures
            r == (self@ is Forwarded),
            r == (reply_of(self@) is None),
    {
        match self {
            Handling::Forwarded(_) => true,
            _ => false,
        }
    }

    /// Why the request was refused, if it was.
    pub fn denial(&self) -> (r: Option<InvalidRequest>)
        ensures
            r == match self@ {
                Plan::Denied(reason) => Some(reason),
                _ => None::<InvalidRequest>,
            },
    {
        match self {
            Handling::Denied(reason) => Some(*reason),
            _ => None,
        }
    }

    /// The response that ends the exchange at once: forbidden and without
    /// headers for a refusal, no content and the decision's headers for a
    /// preflight. `Err` gives the handling back where the request is to be
    /// forwarded.
    pub fn reply(self) -> (r: Result<Reply, Handling>)
        ensures
            match r {
                Ok(reply) => reply_of(self@) == Some(reply@),
                Err(same) => reply_of(self@) is None && same@ == self@,
            },
    {
        match self {
            Handling::Denied(_) => Ok(Reply { status: FORBIDDEN, headers: HeaderSet::new() }),
            Handling::Answered(headers) => Ok(Reply { status: NO_CONTENT, headers }),
            Handling::Forwarded(headers) => Err(Handling::Forwarded(headers)),
        }
    }

    /// Adds the decision's headers to the headers of the response that the
    /// handler behind gave. No header of that response is taken away: a
    /// header that the decision names too has its own values and then the
    /// decision's. Returns `false` at the first header that the `http`
    /// crate refuses; the headers before it are added then. None is
    /// refused while the decision's fields have header names and header
    /// values and the response has room for them.
    pub fn tag(&self, response: &mut HeaderMap<HeaderValue>) -> (done: bool)
        ensures
            done ==> header_map_fields(*final(response)) == tagged(
                self@,
                header_map_fields(*old(response)),
            ),
            !done ==> exists|k: int|
                0 <= k < tags(self@).len() && #[trigger] refused_at(
                    header_map_fields(*old(response)),
                    tags(self@),
                    k,
                ) && header_map_fields(*final(response)) == appended(
                    header_map_fields(*old(response)),
                    tags(self@).subrange(0, k),
                ),
            all_valid(tags(self@)) && has_room(
                header_map_fields(*old(response)),
                tags(self@).len(),
            ) ==> done,
    {
        match self {
            Handling::Forwarded(headers) => {
                let done = write_fields(response, headers);
                proof {
                    assert(tags(self@) == headers@);
                    if !done {
                        let k = choose|k: int|
                            0 <= k < headers@.len() && #[trigger] refused_at(
                                header_map_fields(*old(response)),
                                headers@,
                                k,
                            ) && header_map_fields(*response) == appended(
                                header_map_fields(*old(response)),
                                headers@.subrange(0, k),
                            );
                        assert(refused_at(header_map_fields(*old(response)), tags(self@), k));
                    }
                }
                done
            },
            _ => true,
        }
    }
}

impl Reply {
    /// The reply to a request that the policy refuses.
    pub fn forbidden() -> (r: Reply)
        ensures
            r@ == (Answer { status: FORBIDDEN, fields: Seq::empty() }),
    {
        Reply { status: FORBIDDEN, headers: HeaderSet::new() }
    }

    /// The headers of the reply as a header map, or `None` where the `http`
    /// crate refuses one of them. It refuses none while they have header
    /// names and header values and are no more than `ROOM`.
    pub fn header_map(&self) -> (r: Option<HeaderMap<HeaderValue>>)
        ensures
            r matches Some(headers) ==> header_map_fields(headers) == appended(
                no_fields(),
                self@.fields,
            ),
            r is None ==> !all_valid(self@.fields) || self@.fields.len() > ROOM,
    {
        to_header_map(&self.headers)
    }
}

/// A handler with a policy in front of it.
#[derive(Debug, Clone)]
pub struct CorsService<S> {
    inner: S,
    config: Arc<Config>,
}

impl<S> CorsService<S> {
    /// The policy in front of the handler.
    pub closed spec fn policy(&self) -> Policy {
        (*self.config)@
    }

    /// The handler behind.
    pub closed spec fn inner(&self) -> &S {
        &self.inner
    }

    /// Puts `config` in front of `inner`.
    pub fn new(inner: S, config: Arc<Config>) -> (r: CorsService<S>)
        ensures
            r.policy() == (*config)@,
            *r.inner() == inner,
    {
        CorsService { inner, config }
    }

    /// The handler behind.
    pub fn get_ref(&self) -> (r: &S)
        ensures
            r == self.inner(),
    {
        &self.inner
    }

    /// The handler behind, to call it. The policy stays as it is.
    pub fn get_mut(&mut self) -> (r: &mut S)
        ensures
            *r == *old(self).inner(),
            *final(self).inner() == *final(r),
            final(self).policy() == old(self).policy(),
    {
        &mut self.inner
    }

    /// The handler behind, given up by the service.
    pub fn into_inner(self) -> (r: S)
        ensures
            r == *self.inner(),
    {
        self.inner
    }

    /// The policy in front of the handler.
    pub fn config(&self) -> (r: &Arc<Config>)
        ensures
            (**r)@ == self.policy(),
    {
        &self.config
    }

    /// Decides what is to be done with a request: refuse it, answer it as
    /// a preflight, or call the handler behind and tag its response.
    pub fn call(&self, request: &RequestView) -> (r: Handling)
        ensures
            r@ == plan(self.policy(), request@),
            self.policy().wf(),
            sendable(request@) ==> can_be_sent(plan_fields(r@)),
    {
        Handling::from_decision(self.config.process_request(request))
    }

    /// Decides what is to be done with the request that has this method
    /// and these headers.
    pub fn handle(&self, method: &[u8], headers: &HeaderMap<HeaderValue>) -> (r: Handling)
        ensures
            r@ == plan(self.policy(), request_of(method@, header_map_fields(*headers))),
            sendable(request_of(method@, header_map_fields(*headers))) ==> can_be_sent(
                plan_fields(r@),
            ),
    {
        self.call(&read_request(method, headers))
    }
}

} // verus!
