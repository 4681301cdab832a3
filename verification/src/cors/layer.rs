//! Wrapping handlers with a policy.

use super::config::{Config, Policy};
use super::service::CorsService;
use std::sync::Arc;
use vstd::prelude::*;

verus! {

/// Puts a policy in front of handlers.
#[derive(Debug, Clone)]
pub struct CorsLayer {
    config: Arc<Config>,
}

impl CorsLayer {
    /// The policy that the layer applies.
    pub closed spec fn policy(&self) -> Policy {
        (*self.config)@
    }

    /// A layer that applies `config`.
    pub fn new(config: Arc<Config>) -> (r: CorsLayer)
        ensures
            r.policy() == (*config)@,
    {
        CorsLayer { config }
    }

    /// The policy that the layer applies.
    pub fn config(&self) -> (r: &Arc<Config>)
        ensures
            (**r)@ == self.policy(),
    {
        &self.config
    }

    /// `inner` behind the layer's policy.
    pub fn layer<S>(&self, inner: S) -> (r: CorsService<S>)
        ensures
            r.policy() == self.policy(),
            *r.inner() == inner,
    {
        CorsService::new(inner, self.config.clone())
    }
}

} // verus!
