//! Building a policy step by step.

use super::config::{AllowedOrigins, Config, OriginRule, Policy};
use super::layer::CorsLayer;
use super::lists::{
    all_lower, copy_list, distinct, lemma_lowered_all, lemma_unique, lowercase_all, lowered_all,
    unique, unique_list,
};
use super::valid::{all_fit, fitting, keep_fitting, lemma_fitting, lemma_unique_fits, Kind};
use super::text::list_view;
use std::sync::Arc;
use vstd::prelude::*;

verus! {

/// The rule with its list, if it has one, as a set.
pub open spec fn as_set(rule: OriginRule) -> OriginRule {
    match rule {
        OriginRule::Any { allow_null } => rule,
        OriginRule::List(list) => OriginRule::List(unique(fitting(Kind::Value, list))),
    }
}

/// The methods of a list as a set: its tokens, each once.
pub open spec fn method_set(list: Seq<Seq<u8>>) -> Seq<Seq<u8>> {
    unique(fitting(Kind::Token, list))
}

/// The header names of a list as a set: its header names in lower case,
/// each once.
pub open spec fn name_set(list: Seq<Seq<u8>>) -> Seq<Seq<u8>> {
    unique(fitting(Kind::Name, lowered_all(list)))
}

/// A set of header names is fit for a policy.
pub proof fn lemma_name_set(list: Seq<Seq<u8>>)
    ensures
        distinct(name_set(list)),
        all_lower(name_set(list)),
        all_fit(Kind::Name, name_set(list)),
{
    lemma_lowered_all(list);
    lemma_fitting(Kind::Name, lowered_all(list));
    lemma_unique(fitting(Kind::Name, lowered_all(list)));
    lemma_unique_fits(Kind::Name, fitting(Kind::Name, lowered_all(list)));
}

/// The policy that allows nothing: no origin, no method, no header.
pub open spec fn restrictive() -> Policy {
    Policy {
        origins: OriginRule::List(Seq::empty()),
        methods: Seq::empty(),
        headers: Seq::empty(),
        exposed: Seq::empty(),
        allow_credentials: false,
        prefer_wildcard: false,
        max_age: None,
    }
}

/// Collects the settings of a policy. Lists are taken as sets: of equal
/// items the first counts. Header names are taken in lower case. An item
/// that no request or response can carry is left out: a method that is no
/// token, a header name that is no header name, an origin that is no
/// header value.
#[derive(Debug)]
pub struct CorsBuilder {
    allowed_origins: AllowedOrigins,
    allowed_methods: Vec<Vec<u8>>,
    allowed_headers: Vec<Vec<u8>>,
    exposed_headers: Vec<Vec<u8>>,
    allow_credentials: bool,
    prefer_wildcard: bool,
    max_age: Option<u64>,
}

impl View for CorsBuilder {
    type V = Policy;

    closed spec fn view(&self) -> Policy {
        Policy {
            origins: self.allowed_origins@,
            methods: list_view(self.allowed_methods),
            headers: list_view(self.allowed_headers),
            exposed: list_view(self.exposed_headers),
            allow_credentials: self.allow_credentials,
            prefer_wildcard: self.prefer_wildcard,
            max_age: self.max_age,
        }
    }
}

impl Clone for CorsBuilder {
    fn clone(&self) -> (r: Self)
        ensures
            r@ == self@,
    {
        proof {
            use_type_invariant(self);
        }
        CorsBuilder {
            allowed_origins: self.allowed_origins.clone(),
            allowed_methods: copy_list(&self.allowed_methods),
            allowed_headers: copy_list(&self.allowed_headers),
            exposed_headers: copy_list(&self.exposed_headers),
            allow_credentials: self.allow_credentials,
            prefer_wildcard: self.prefer_wildcard,
            max_age: self.max_age,
        }
    }
}

impl CorsBuilder {
    #[verifier::type_invariant]
    closed spec fn inv(self) -> bool {
        self@.wf()
    }

    /// A builder whose policy, as long as nothing is set, allows nothing.
    pub fn new() -> (r: CorsBuilder)
        ensures
            r@ == restrictive(),
    {
        let r = CorsBuilder {
            allowed_origins: AllowedOrigins::Origins(Vec::new()),
            allowed_methods: Vec::new(),
            allowed_headers: Vec::new(),
            exposed_headers: Vec::new(),
            allow_credentials: false,
            prefer_wildcard: false,
            max_age: None,
        };
        assert(r@.methods =~= Seq::<Seq<u8>>::empty());
        assert(r@.headers =~= Seq::<Seq<u8>>::empty());
        assert(r@.exposed =~= Seq::<Seq<u8>>::empty());
        assert(r@.origins->List_0 =~= Seq::<Seq<u8>>::empty());
        r
    }

    /// Sets which origins are allowed.
    pub fn allow_origins(self, origins: AllowedOrigins) -> (r: CorsBuilder)
        ensures
            r@ == (Policy { origins: as_set(origins@), ..self@ }),
    {
        proof {
            use_type_invariant(&self);
        }
        let allowed_origins = match origins {
            AllowedOrigins::Any { allow_null } => AllowedOrigins::Any { allow_null },
            AllowedOrigins::Origins(list) => {
                proof {
                    lemma_fitting(Kind::Value, list_view(list));
                    lemma_unique(fitting(Kind::Value, list_view(list)));
                    lemma_unique_fits(Kind::Value, fitting(Kind::Value, list_view(list)));
                }
                AllowedOrigins::Origins(unique_list(&keep_fitting(Kind::Value, &list)))
            },
        };
        CorsBuilder { allowed_origins, ..self }
    }

    /// Sets which methods a preflight may ask for.
    pub fn allow_methods(self, methods: Vec<Vec<u8>>) -> (r: CorsBuilder)
        ensures
            r@ == (Policy { methods: method_set(list_view(methods)), ..self@ }),
    {
        proof {
            use_type_invariant(&self);
            lemma_fitting(Kind::Token, list_view(methods));
            lemma_unique(fitting(Kind::Token, list_view(methods)));
            lemma_unique_fits(Kind::Token, fitting(Kind::Token, list_view(methods)));
        }
        CorsBuilder { allowed_methods: unique_list(&keep_fitting(Kind::Token, &methods)), ..self }
    }

    /// Sets which headers a preflight may ask for.
    pub fn allow_headers(self, headers: Vec<Vec<u8>>) -> (r: CorsBuilder)
        ensures
            r@ == (Policy { headers: name_set(list_view(headers)), ..self@ }),
    {
        proof {
            use_type_invariant(&self);
            lemma_name_set(list_view(headers));
        }
        CorsBuilder {
            allowed_headers: unique_list(&keep_fitting(Kind::Name, &lowercase_all(&headers))),
            ..self
        }
    }

    /// Sets which response headers scripts may read.
    pub fn expose_headers(self, headers: Vec<Vec<u8>>) -> (r: CorsBuilder)
        ensures
            r@ == (Policy { exposed: name_set(list_view(headers)), ..self@ }),
    {
        proof {
            use_type_invariant(&self);
            lemma_name_set(list_view(headers));
        }
        CorsBuilder {
            exposed_headers: unique_list(&keep_fitting(Kind::Name, &lowercase_all(&headers))),
            ..self
        }
    }

    /// Sets whether credentialed requests are allowed.
    pub fn allow_credentials(self, allow: bool) -> (r: CorsBuilder)
        ensures
            r@ == (Policy { allow_credentials: allow, ..self@ }),
    {
        proof {
            use_type_invariant(&self);
        }
        CorsBuilder { allow_credentials: allow, ..self }
    }

    /// Sets whether the wildcard is sent in place of the origin where the
    /// rules allow it.
    pub fn prefer_wildcard(self, prefer: bool) -> (r: CorsBuilder)
        ensures
            r@ == (Policy { prefer_wildcard: prefer, ..self@ }),
    {
        proof {
            use_type_invariant(&self);
        }
        CorsBuilder { prefer_wildcard: prefer, ..self }
    }

    /// Sets for how many seconds a preflight's answer may be kept.
    pub fn max_age(self, seconds: u64) -> (r: CorsBuilder)
        ensures
            r@ == (Policy { max_age: Some(seconds), ..self@ }),
    {
        proof {
            use_type_invariant(&self);
        }
        CorsBuilder { max_age: Some(seconds), ..self }
    }

    /// The policy that was built.
    pub fn into_config(self) -> (r: Config)
        ensures
            r@ == self@,
            r@.wf(),
    {
        proof {
            use_type_invariant(&self);
        }
        Config::from_parts(
            self.allowed_origins,
            self.allowed_methods,
            self.allowed_headers,
            self.exposed_headers,
            self.allow_credentials,
            self.prefer_wildcard,
            self.max_age,
        )
    }

    /// A layer that applies the policy that was built.
    pub fn into_layer(self) -> (r: CorsLayer)
        ensures
            r.policy() == self@,
    {
        CorsLayer::new(Arc::new(self.into_config()))
    }
}

} // verus!
