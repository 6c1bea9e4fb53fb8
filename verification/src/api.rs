//! The decision point as the enforcement point sees it.

use vstd::prelude::*;

use crate::error::AuthZResolverError;
use crate::models::{EvaluationRequest, EvaluationRequestView, EvaluationResponse};

verus! {

/// The gateway to the decision point, from which enforcement points ask for
/// evaluations.
pub trait AuthZResolverGatewayClient {
    /// What the client may give back for a request: anything, unless the
    /// client says more of itself.
    open spec fn may_answer(
        &self,
        request: EvaluationRequestView,
        answer: Result<EvaluationResponse, AuthZResolverError>,
    ) -> bool {
        true
    }

    /// Evaluates an authorization request: a decision, with row-level
    /// constraints where it is a grant, or the reason why no evaluation
    /// could be had.
    fn evaluate(&self, request: EvaluationRequest) -> (answer: Result<
        EvaluationResponse,
        AuthZResolverError,
    >)
        ensures
            self.may_answer(request@, answer),
    ;
}

/// A decision point plugin, to which the gateway hands evaluations.
pub trait AuthZResolverPluginClient {
    /// What the plugin may give back for a request: anything, unless the
    /// plugin says more of itself.
    open spec fn may_answer(
        &self,
        request: EvaluationRequestView,
        answer: Result<EvaluationResponse, AuthZResolverError>,
    ) -> bool {
        true
    }

    /// Evaluates an authorization request.
    fn evaluate(&self, request: EvaluationRequest) -> (answer: Result<
        EvaluationResponse,
        AuthZResolverError,
    >)
        ensures
            self.may_answer(request@, answer),
    ;
}

/// The gateway with its plugin chosen: it hands every evaluation to the
/// plugin and gives back what the plugin gives.
#[derive(Clone, Debug)]
pub struct AuthZResolverGwLocalClient<P: AuthZResolverPluginClient> {
    plugin: P,
}

impl<P: AuthZResolverPluginClient> AuthZResolverGwLocalClient<P> {
    /// The plugin behind the gateway.
    pub closed spec fn spec_plugin(&self) -> P {
        self.plugin
    }

    /// The gateway in front of the given plugin.
    pub fn new(plugin: P) -> (client: AuthZResolverGwLocalClient<P>)
        ensures
            client.spec_plugin() == plugin,
    {
        AuthZResolverGwLocalClient { plugin }
    }
}

impl<P: AuthZResolverPluginClient> AuthZResolverGatewayClient for AuthZResolverGwLocalClient<P> {
    open spec fn may_answer(
        &self,
        request: EvaluationRequestView,
        answer: Result<EvaluationResponse, AuthZResolverError>,
    ) -> bool {
        self.spec_plugin().may_answer(request, answer)
    }

    fn evaluate(&self, request: EvaluationRequest) -> (answer: Result<
        EvaluationResponse,
        AuthZResolverError,
    >) {
        self.plugin.evaluate(request)
    }
}

} // verus!
