//! The reference decision point: it grants every request, and scopes
//! constrained operations to the root tenant of the request.

use vstd::prelude::*;

use crate::api::AuthZResolverPluginClient;
use crate::constraints::{Constraint, InPredicate, Predicate};
use crate::error::AuthZResolverError;
use crate::id::Uuid;
use crate::models::{EvaluationRequest, EvaluationRequestView, EvaluationResponse};
use crate::properties;

verus! {

/// How the plugin decides.
#[derive(Clone, Copy, Debug, PartialEq, Eq, Structural)]
pub enum AuthzMode {
    /// Every request is granted; constrained operations are scoped to the
    /// root tenant.
    AllowAll,
}

impl Default for AuthzMode {
    /// `AllowAll`.
    fn default() -> (mode: AuthzMode)
        ensures
            mode == AuthzMode::AllowAll,
    {
        AuthzMode::AllowAll
    }
}

/// The configuration of the plugin.
#[derive(Clone, Debug)]
pub struct StaticAuthzPluginConfig {
    /// The vendor under which the plugin registers.
    pub vendor: String,
    /// The priority of the plugin; a lower number goes first.
    pub priority: i16,
    /// How the plugin decides.
    pub mode: AuthzMode,
}

impl Default for StaticAuthzPluginConfig {
    /// Vendor `hyperspot`, priority 100, allow-all.
    fn default() -> (config: StaticAuthzPluginConfig)
        ensures
            config.vendor@ == "hyperspot"@,
            config.priority == 100,
            config.mode == AuthzMode::AllowAll,
    {
        StaticAuthzPluginConfig {
            vendor: "hyperspot".to_owned(),
            priority: 100,
            mode: AuthzMode::AllowAll,
        }
    }
}

/// The tenant to which the reference decision point scopes an answer: the
/// root of the request's tenant context, where constraints are required
/// and the root is set and not nil.
pub open spec fn scoping_tenant(request: EvaluationRequestView) -> Option<Uuid> {
    if !request.context.require_constraints {
        None
    } else {
        match request.context.tenant_context {
            Some(tenant_context) => match tenant_context.root_id {
                Some(root) => if root != Uuid::spec_nil() {
                    Some(root)
                } else {
                    None
                },
                None => None,
            },
            None => None,
        }
    }
}

/// The constraint is the single predicate `owner_tenant_id IN (tenant)`.
pub open spec fn is_tenant_constraint(constraint: Constraint, tenant: Uuid) -> bool {
    &&& constraint.predicates@.len() == 1
    &&& constraint.predicates@[0] is In
    &&& constraint.predicates@[0].spec_property() == properties::OWNER_TENANT_ID@
    &&& constraint.predicates@[0].spec_values() == seq![tenant]
}

/// The answer is a grant without a deny reason, with the one tenant
/// constraint where there is a scoping tenant and with no constraint
/// otherwise.
pub open spec fn is_reference_answer(
    request: EvaluationRequestView,
    response: EvaluationResponse,
) -> bool {
    &&& response.decision
    &&& response.deny_reason is None
    &&& match scoping_tenant(request) {
        Some(tenant) => response.constraints@.len() == 1 && is_tenant_constraint(
            response.constraints@[0],
            tenant,
        ),
        None => response.constraints@.len() == 0,
    }
}

/// The reference decision point.
#[derive(Clone, Copy, Debug)]
pub struct Service;

impl Service {
    /// The reference decision point.
    pub fn new() -> Service {
        Service
    }

    /// Evaluates a request. The answer is always a grant. Where
    /// constraints are required and the request's tenant context has a root
    /// that is not nil, the answer holds one constraint, `owner_tenant_id
    /// IN (root)`; otherwise it holds none.
    pub fn evaluate(&self, request: &EvaluationRequest) -> (response: EvaluationResponse)
        ensures
            is_reference_answer(request@, response),
    {
        self.answer(request)
    }

    /// The reference answer to a request.
    fn answer(&self, request: &EvaluationRequest) -> (response: EvaluationResponse)
        ensures
            is_reference_answer(request@, response),
    {
        let mut constraints: Vec<Constraint> = Vec::new();
        if request.context.require_constraints {
            match &request.context.tenant_context {
                Some(tenant_context) => match tenant_context.root_id {
                    Some(root) => {
                        if !root.is_nil() {
                            let mut values: Vec<Uuid> = Vec::new();
                            values.push(root);
                            let mut predicates: Vec<Predicate> = Vec::new();
                            predicates.push(
                                Predicate::In(
                                    InPredicate {
                                        property: properties::OWNER_TENANT_ID.to_owned(),
                                        values,
                                    },
                                ),
                            );
                            constraints.push(Constraint { predicates });
                            proof {
                                assert(constraints@[0].predicates@[0].spec_values() =~= seq![root]);
                            }
                        }
                    },
                    None => {},
                },
                None => {},
            }
        }
        EvaluationResponse { decision: true, constraints, deny_reason: None }
    }
}

impl AuthZResolverPluginClient for Service {
    /// The reference decision point never fails, and gives a reference
    /// answer.
    open spec fn may_answer(
        &self,
        request: EvaluationRequestView,
        answer: Result<EvaluationResponse, AuthZResolverError>,
    ) -> bool {
        answer is Ok && is_reference_answer(request, answer->Ok_0)
    }

    fn evaluate(&self, request: EvaluationRequest) -> (answer: Result<
        EvaluationResponse,
        AuthZResolverError,
    >) {
        Ok(self.answer(&request))
    }
}

} // verus!
