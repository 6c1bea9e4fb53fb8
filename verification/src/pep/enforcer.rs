//! The policy enforcement point: it builds the evaluation request, asks
//! the decision point, and compiles the answer into an access scope.
//!
//! An enforcer is made once, with the client of the decision point. The
//! resource type comes with each call, so one enforcer serves every
//! resource type of a service.

use vstd::prelude::*;

use crate::access_scope::{AccessScope, AccessScopeView};
use crate::api::AuthZResolverGatewayClient;
use crate::error::AuthZResolverError;
use crate::id::{hyphenated_text, Uuid};
use crate::json::{json_string, string_value};
use crate::models::{
    opt_tenant_context_view, Action, BarrierMode, Capability, Context, ContextView,
    EvaluationRequest, EvaluationRequestView, EvaluationResponse, Resource, ResourceView, Subject,
    SubjectView, TenantContext, TenantContextView, TenantMode,
};
use crate::pep::compiler::{
    compile_to_access_scope, compiled, supported_set, Compiled, ConstraintCompileError,
};
use crate::property_map::PropertyMap;
use crate::secret::BearerToken;
use crate::security_context::{SecurityContext, SecurityContextView};
use crate::text::{copy_strings, name_texts, owned_names, texts};

verus! {

// ── Errors ──────────────────────────────────────────────────────────

/// Why the enforcement point has no access scope to give.
#[derive(Clone, Debug, PartialEq, Eq)]
pub enum EnforcerError {
    /// The evaluation could not be had from the decision point.
    EvaluationFailed(AuthZResolverError),
    /// The answer could not be compiled: it was a denial, or none of its
    /// constraints was usable.
    CompileFailed(ConstraintCompileError),
}

// ── Per-call overrides ──────────────────────────────────────────────

/// What a call overrides of the evaluation request: properties of the
/// resource, and parts of the tenant context. Nothing is overridden until
/// it is set.
#[derive(Debug)]
pub struct AccessRequest {
    resource_properties: PropertyMap,
    tenant_context: Option<TenantContext>,
}

/// What an access request says.
pub struct AccessRequestView {
    pub resource_properties: Map<Seq<char>, serde_json::Value>,
    pub tenant_context: Option<TenantContextView>,
}

impl AccessRequestView {
    /// The request that overrides nothing.
    pub open spec fn unset() -> AccessRequestView {
        AccessRequestView { resource_properties: Map::empty(), tenant_context: None }
    }

    /// The overridden tenant context, or the one in which nothing is set.
    pub open spec fn tenant_context_or_unset(self) -> TenantContextView {
        match self.tenant_context {
            Some(context) => context,
            None => TenantContextView::unset(),
        }
    }
}

impl View for AccessRequest {
    type V = AccessRequestView;

    closed spec fn view(&self) -> AccessRequestView {
        AccessRequestView {
            resource_properties: self.resource_properties@,
            tenant_context: opt_tenant_context_view(self.tenant_context),
        }
    }
}

impl Default for AccessRequest {
    /// The request that overrides nothing.
    fn default() -> (request: AccessRequest)
        ensures
            request@ == AccessRequestView::unset(),
    {
        AccessRequest::new()
    }
}

impl AccessRequest {
    /// The request that overrides nothing.
    pub fn new() -> (request: AccessRequest)
        ensures
            request@ == AccessRequestView::unset(),
    {
        AccessRequest { resource_properties: PropertyMap::new(), tenant_context: None }
    }

    /// The tenant context that is overridden so far, or the one in which
    /// nothing is set.
    fn take_tenant_context(context: Option<TenantContext>) -> (taken: TenantContext)
        ensures
            taken@ == (match context {
                Some(c) => c@,
                None => TenantContextView::unset(),
            }),
    {
        match context {
            Some(c) => c,
            None => TenantContext::default(),
        }
    }

    /// Adds one resource property.
    pub fn resource_property(self, key: &str, value: serde_json::Value) -> (request: AccessRequest)
        ensures
            request@ == (AccessRequestView {
                resource_properties: self@.resource_properties.insert(key@, value),
                ..self@
            }),
    {
        let mut resource_properties = self.resource_properties;
        resource_properties.insert(key, value);
        AccessRequest { resource_properties, tenant_context: self.tenant_context }
    }

    /// Sets all resource properties at once, in place of any that were set.
    pub fn resource_properties(self, properties: PropertyMap) -> (request: AccessRequest)
        ensures
            request@ == (AccessRequestView { resource_properties: properties@, ..self@ }),
    {
        AccessRequest { resource_properties: properties, tenant_context: self.tenant_context }
    }

    /// Overrides the root tenant of the evaluation.
    pub fn context_tenant_id(self, id: Uuid) -> (request: AccessRequest)
        ensures
            request@ == (AccessRequestView {
                tenant_context: Some(
                    TenantContextView { root_id: Some(id), ..self@.tenant_context_or_unset() },
                ),
                ..self@
            }),
    {
        let mut context = AccessRequest::take_tenant_context(self.tenant_context);
        context.root_id = Some(id);
        AccessRequest { resource_properties: self.resource_properties, tenant_context: Some(context) }
    }

    /// Overrides the tenant hierarchy mode.
    pub fn tenant_mode(self, mode: TenantMode) -> (request: AccessRequest)
        ensures
            request@ == (AccessRequestView {
                tenant_context: Some(
                    TenantContextView { mode: mode, ..self@.tenant_context_or_unset() },
                ),
                ..self@
            }),
    {
        let mut context = AccessRequest::take_tenant_context(self.tenant_context);
        context.mode = mode;
        AccessRequest { resource_properties: self.resource_properties, tenant_context: Some(context) }
    }

    /// Overrides the barrier mode.
    pub fn barrier_mode(self, mode: BarrierMode) -> (request: AccessRequest)
        ensures
            request@ == (AccessRequestView {
                tenant_context: Some(
                    TenantContextView { barrier_mode: mode, ..self@.tenant_context_or_unset() },
                ),
                ..self@
            }),
    {
        let mut context = AccessRequest::take_tenant_context(self.tenant_context);
        context.barrier_mode = mode;
        AccessRequest { resource_properties: self.resource_properties, tenant_context: Some(context) }
    }

    /// Sets the tenant status filter.
    pub fn tenant_status(self, statuses: Vec<String>) -> (request: AccessRequest)
        ensures
            request@ == (AccessRequestView {
                tenant_context: Some(
                    TenantContextView {
                        tenant_status: Some(texts(statuses@)),
                        ..self@.tenant_context_or_unset()
                    },
                ),
                ..self@
            }),
    {
        let mut context = AccessRequest::take_tenant_context(self.tenant_context);
        context.tenant_status = Some(statuses);
        AccessRequest { resource_properties: self.resource_properties, tenant_context: Some(context) }
    }

    /// Sets the whole tenant context at once.
    pub fn tenant_context(self, context: TenantContext) -> (request: AccessRequest)
        ensures
            request@ == (AccessRequestView { tenant_context: Some(context@), ..self@ }),
    {
        AccessRequest { resource_properties: self.resource_properties, tenant_context: Some(context) }
    }

    /// The resource properties that are set.
    pub fn get_resource_properties(&self) -> (properties: &PropertyMap)
        ensures
            properties@ == self@.resource_properties,
    {
        &self.resource_properties
    }

    /// The tenant context, if any part of it is overridden.
    pub fn get_tenant_context(&self) -> (context: Option<&TenantContext>)
        ensures
            match context {
                Some(c) => self@.tenant_context == Some(c@),
                None => self@.tenant_context is None,
            },
    {
        match &self.tenant_context {
            Some(c) => Some(c),
            None => None,
        }
    }
}

// ── Resource types ──────────────────────────────────────────────────

/// A resource type and the constraint properties that its callers can
/// compile. The list is handed both to the decision point, so that it knows
/// the caller's vocabulary, and to the compiler, which drops what is
/// outside it.
#[derive(Clone, Copy, Debug)]
pub struct ResourceType {
    /// The dotted name of the resource type.
    pub name: &'static str,
    /// The properties that the caller can compile.
    pub supported_properties: &'static [&'static str],
}

// ── What a request holds ────────────────────────────────────────────

/// The root tenant of an evaluation: the first that is set and not nil of
/// the overridden root and the subject's tenant.
pub open spec fn resolved_root_id(
    context: SecurityContextView,
    overrides: AccessRequestView,
) -> Option<Uuid> {
    let explicit = match overrides.tenant_context {
        Some(tenant_context) => tenant_context.root_id,
        None => None,
    };
    if explicit is Some && explicit->Some_0 != Uuid::spec_nil() {
        explicit
    } else if context.subject_tenant_id is Some && context.subject_tenant_id->Some_0
        != Uuid::spec_nil() {
        context.subject_tenant_id
    } else {
        None
    }
}

/// The tenant context of an evaluation: the overrides with the resolved
/// root, where there is a root, and none otherwise.
pub open spec fn resolved_tenant_context(
    context: SecurityContextView,
    overrides: AccessRequestView,
) -> Option<TenantContextView> {
    match resolved_root_id(context, overrides) {
        Some(root) => Some(
            TenantContextView { root_id: Some(root), ..overrides.tenant_context_or_unset() },
        ),
        None => None,
    }
}

/// The properties of the subject: its tenant under `tenant_id`, as a JSON
/// string of the identifier's text, where the tenant is known.
pub open spec fn subject_properties(context: SecurityContextView) -> Map<
    Seq<char>,
    serde_json::Value,
> {
    match context.subject_tenant_id {
        Some(tenant) => Map::empty().insert(
            "tenant_id"@,
            json_string(hyphenated_text(tenant.bits())),
        ),
        None => Map::empty(),
    }
}

/// The evaluation request that an enforcer with the given capabilities
/// builds.
pub open spec fn built_request(
    capabilities: Seq<Capability>,
    context: SecurityContextView,
    resource_name: Seq<char>,
    supported_properties: Seq<Seq<char>>,
    action: Seq<char>,
    resource_id: Option<Uuid>,
    require_constraints: bool,
    overrides: AccessRequestView,
) -> EvaluationRequestView {
    EvaluationRequestView {
        subject: SubjectView {
            id: context.subject_id,
            subject_type: context.subject_type,
            properties: subject_properties(context),
        },
        action,
        resource: ResourceView {
            resource_type: resource_name,
            id: resource_id,
            properties: overrides.resource_properties,
        },
        context: ContextView {
            tenant_context: resolved_tenant_context(context, overrides),
            token_scopes: context.token_scopes,
            require_constraints,
            capabilities,
            supported_properties,
            bearer_token: context.bearer_token,
            properties: Map::empty(),
        },
    }
}

/// What the enforcement point makes of what came back from the decision
/// point.
pub enum Enforced {
    /// This scope.
    Scope(AccessScopeView),
    /// The evaluation failed with this error.
    EvaluationFailed(AuthZResolverError),
    /// The decision point denied access.
    Denied,
    /// No constraint of the grant was usable; the text holds the reasons.
    AllConstraintsFailed(Seq<char>),
}

/// What the enforcement point makes of an evaluation: its failure is handed
/// on, and an answer is compiled with constraints required.
pub open spec fn enforced(
    evaluation: Result<EvaluationResponse, AuthZResolverError>,
    supported: Set<Seq<char>>,
) -> Enforced {
    match evaluation {
        Err(error) => Enforced::EvaluationFailed(error),
        Ok(response) => match compiled(response, true, supported) {
            Compiled::Scope(scope) => Enforced::Scope(scope),
            Compiled::Denied => Enforced::Denied,
            Compiled::AllConstraintsFailed(reason) => Enforced::AllConstraintsFailed(reason),
        },
    }
}

/// How a result of the enforcement point reads.
pub open spec fn enforcement(result: Result<AccessScope, EnforcerError>) -> Enforced {
    match result {
        Ok(scope) => Enforced::Scope(scope@),
        Err(EnforcerError::EvaluationFailed(error)) => Enforced::EvaluationFailed(error),
        Err(EnforcerError::CompileFailed(ConstraintCompileError::Denied)) => Enforced::Denied,
        Err(
            EnforcerError::CompileFailed(ConstraintCompileError::AllConstraintsFailed { reason }),
        ) => Enforced::AllConstraintsFailed(reason@),
    }
}

/// The strict reading of what the enforcement point gives: a grant without
/// constraints is no grant. An unrestricted scope becomes
/// `AllConstraintsFailed`; everything else stays.
pub open spec fn strictly(given: Enforced) -> Enforced {
    match given {
        Enforced::Scope(scope) => if scope.unconstrained {
            Enforced::AllConstraintsFailed("constraints required but absent"@)
        } else {
            given
        },
        _ => given,
    }
}

/// Builds the evaluation request of a call, for an enforcement point that
/// tells of the given capabilities. This is the first of the two steps
/// between which the decision point is asked; `conclude_evaluation` is the
/// second.
pub fn build_request_for(
    capabilities: &[Capability],
    ctx: &SecurityContext,
    resource: &ResourceType,
    action: &str,
    resource_id: Option<Uuid>,
    require_constraints: bool,
    request: &AccessRequest,
) -> (evaluation: EvaluationRequest)
    ensures
        evaluation@ == built_request(
            capabilities@,
            ctx@,
            resource.name@,
            name_texts(resource.supported_properties@),
            action@,
            resource_id,
            require_constraints,
            request@,
        ),
{
    let explicit_root = match request.get_tenant_context() {
        Some(overrides) => match overrides.root_id {
            Some(id) => if id.is_nil() {
                None
            } else {
                Some(id)
            },
            None => None,
        },
        None => None,
    };
    let resolved_root = match explicit_root {
        Some(id) => Some(id),
        None => match ctx.subject_tenant_id() {
            Some(id) => if id.is_nil() {
                None
            } else {
                Some(id)
            },
            None => None,
        },
    };
    let tenant_context = match resolved_root {
        Some(root) => {
            let mut base = match request.get_tenant_context() {
                Some(overrides) => overrides.duplicate(),
                None => TenantContext::default(),
            };
            base.root_id = Some(root);
            Some(base)
        },
        None => None,
    };

    let mut subject_properties = PropertyMap::new();
    match ctx.subject_tenant_id() {
        Some(tenant) => {
            subject_properties.insert("tenant_id", string_value(tenant.to_string()));
        },
        None => {},
    }

    let bearer_token = match ctx.bearer_token() {
        Some(token) => Some(BearerToken::new(token)),
        None => None,
    };
    let subject_type = match ctx.subject_type() {
        Some(kind) => Some(kind.to_owned()),
        None => None,
    };
    let capabilities = copy_capabilities(capabilities);

    EvaluationRequest {
        subject: Subject { id: ctx.subject_id(), subject_type, properties: subject_properties },
        action: Action { name: action.to_owned() },
        resource: Resource {
            resource_type: resource.name.to_owned(),
            id: resource_id,
            properties: request.get_resource_properties().duplicate(),
        },
        context: Context {
            tenant_context,
            token_scopes: copy_strings(ctx.token_scopes()),
            require_constraints,
            capabilities,
            supported_properties: owned_names(resource.supported_properties),
            bearer_token,
            properties: PropertyMap::new(),
        },
    }
}

/// What the enforcement point makes of what came back from the decision
/// point: a failed evaluation is handed on as `EvaluationFailed`, and an
/// answer is compiled, with constraints required, by the resource's
/// supported properties.
pub fn conclude_evaluation(
    evaluation: Result<EvaluationResponse, AuthZResolverError>,
    resource: &ResourceType,
) -> (result: Result<AccessScope, EnforcerError>)
    ensures
        enforcement(result) == enforced(evaluation, supported_set(resource.supported_properties@)),
{
    match evaluation {
        Err(error) => Err(EnforcerError::EvaluationFailed(error)),
        Ok(response) => match compile_to_access_scope(
            &response,
            true,
            resource.supported_properties,
        ) {
            Ok(scope) => Ok(scope),
            Err(error) => Err(EnforcerError::CompileFailed(error)),
        },
    }
}

// ── The enforcer ────────────────────────────────────────────────────

/// The policy enforcement point. It holds the client of the decision point
/// and the capabilities that it tells the decision point of.
#[derive(Clone, Debug)]
pub struct PolicyEnforcer<P: AuthZResolverGatewayClient> {
    authz: P,
    capabilities: Vec<Capability>,
}

impl<P: AuthZResolverGatewayClient> PolicyEnforcer<P> {
    /// The capabilities that the enforcer tells the decision point of.
    pub closed spec fn spec_capabilities(&self) -> Seq<Capability> {
        self.capabilities@
    }

    /// The client that the enforcer asks.
    pub closed spec fn spec_client(&self) -> P {
        self.authz
    }

    /// An enforcer that asks the given client, and tells of no capability.
    pub fn new(authz: P) -> (enforcer: PolicyEnforcer<P>)
        ensures
            enforcer.spec_client() == authz,
            enforcer.spec_capabilities() == Seq::<Capability>::empty(),
    {
        PolicyEnforcer { authz, capabilities: Vec::new() }
    }

    /// Sets the capabilities that the enforcer tells the decision point of.
    pub fn with_capabilities(self, capabilities: Vec<Capability>) -> (enforcer: PolicyEnforcer<P>)
        ensures
            enforcer.spec_client() == self.spec_client(),
            enforcer.spec_capabilities() == capabilities@,
    {
        PolicyEnforcer { authz: self.authz, capabilities }
    }

    /// The capabilities that the enforcer tells the decision point of.
    pub fn capabilities(&self) -> (capabilities: &[Capability])
        ensures
            capabilities@ == self.spec_capabilities(),
    {
        self.capabilities.as_slice()
    }

    /// Builds the evaluation request of a call that overrides nothing: the
    /// root tenant is the subject's tenant.
    pub fn build_request(
        &self,
        ctx: &SecurityContext,
        resource: &ResourceType,
        action: &str,
        resource_id: Option<Uuid>,
        require_constraints: bool,
    ) -> (request: EvaluationRequest)
        ensures
            request@ == built_request(
                self.spec_capabilities(),
                ctx@,
                resource.name@,
                name_texts(resource.supported_properties@),
                action@,
                resource_id,
                require_constraints,
                AccessRequestView::unset(),
            ),
    {
        self.build_request_with(
            ctx,
            resource,
            action,
            resource_id,
            require_constraints,
            &AccessRequest::new(),
        )
    }

    /// Builds the evaluation request of a call with overrides.
    ///
    /// The root tenant is the first that is set and not nil of the
    /// overridden root and the subject's tenant. With a root, the tenant
    /// context is the overridden one with that root; without, there is
    /// none. The subject's tenant, where known, goes into the subject's
    /// properties as `tenant_id`. The token scopes, the bearer token, the
    /// capabilities, the resource's supported properties and the resource
    /// identifier are handed on as they are, and the overridden resource
    /// properties become the properties of the resource.
    pub fn build_request_with(
        &self,
        ctx: &SecurityContext,
        resource: &ResourceType,
        action: &str,
        resource_id: Option<Uuid>,
        require_constraints: bool,
        request: &AccessRequest,
    ) -> (evaluation: EvaluationRequest)
        ensures
            evaluation@ == built_request(
                self.spec_capabilities(),
                ctx@,
                resource.name@,
                name_texts(resource.supported_properties@),
                action@,
                resource_id,
                require_constraints,
                request@,
            ),
    {
        build_request_for(
            self.capabilities.as_slice(),
            ctx,
            resource,
            action,
            resource_id,
            require_constraints,
            request,
        )
    }

    /// What the enforcement point makes of what came back from the
    /// decision point: a failed evaluation is handed on as
    /// `EvaluationFailed`, and an answer is compiled, with constraints
    /// required, by the resource's supported properties.
    pub fn conclude(
        evaluation: Result<EvaluationResponse, AuthZResolverError>,
        resource: &ResourceType,
    ) -> (result: Result<AccessScope, EnforcerError>)
        ensures
            enforcement(result) == enforced(
                evaluation,
                supported_set(resource.supported_properties@),
            ),
    {
        conclude_evaluation(evaluation, resource)
    }

    /// The strict reading of a result, for callers to whom an unrestricted
    /// grant is a violation of protocol: an allow-all scope is refused as
    /// `AllConstraintsFailed`, and every other result stays as it is.
    pub fn require_constrained(result: Result<AccessScope, EnforcerError>) -> (strict: Result<
        AccessScope,
        EnforcerError,
    >)
        ensures
            enforcement(strict) == strictly(enforcement(result)),
    {
        match result {
            Ok(scope) => if scope.is_unconstrained() {
                Err(
                    EnforcerError::CompileFailed(
                        ConstraintCompileError::AllConstraintsFailed {
                            reason: "constraints required but absent".to_owned(),
                        },
                    ),
                )
            } else {
                Ok(scope)
            },
            Err(error) => Err(error),
        }
    }

    /// What the full flow may give: what `conclude` makes of an answer that
    /// the client may give to the request that the enforcer builds, with
    /// constraints required.
    pub open spec fn may_give(
        &self,
        context: SecurityContextView,
        resource: ResourceType,
        action: Seq<char>,
        resource_id: Option<Uuid>,
        overrides: AccessRequestView,
        given: Enforced,
    ) -> bool {
        exists|evaluation: Result<EvaluationResponse, AuthZResolverError>|
            #![trigger enforced(evaluation, supported_set(resource.supported_properties@))]
            self.spec_client().may_answer(
                built_request(
                    self.spec_capabilities(),
                    context,
                    resource.name@,
                    name_texts(resource.supported_properties@),
                    action,
                    resource_id,
                    true,
                    overrides,
                ),
                evaluation,
            ) && given == enforced(evaluation, supported_set(resource.supported_properties@))
    }

    /// The full flow for a call that overrides nothing: build the request,
    /// ask the decision point, compile the answer. Constraints are always
    /// required.
    pub fn access_scope(
        &self,
        ctx: &SecurityContext,
        resource: &ResourceType,
        action: &str,
        resource_id: Option<Uuid>,
    ) -> (result: Result<AccessScope, EnforcerError>)
        ensures
            self.may_give(
                ctx@,
                *resource,
                action@,
                resource_id,
                AccessRequestView::unset(),
                enforcement(result),
            ),
    {
        self.access_scope_with(ctx, resource, action, resource_id, &AccessRequest::new())
    }

    /// The full flow under the strict reading, for a call that overrides
    /// nothing: as `access_scope`, but a grant without constraints is
    /// refused as `AllConstraintsFailed`.
    pub fn access_scope_strict(
        &self,
        ctx: &SecurityContext,
        resource: &ResourceType,
        action: &str,
        resource_id: Option<Uuid>,
    ) -> (result: Result<AccessScope, EnforcerError>)
        ensures
            exists|given: Enforced|
                self.may_give(
                    ctx@,
                    *resource,
                    action@,
                    resource_id,
                    AccessRequestView::unset(),
                    given,
                ) && enforcement(result) == #[trigger] strictly(given),
    {
        let lenient = self.access_scope(ctx, resource, action, resource_id);
        let result = PolicyEnforcer::<P>::require_constrained(lenient);
        proof {
            assert(enforcement(result) == strictly(enforcement(lenient)));
        }
        result
    }

    /// The full flow for a call with overrides. Constraints are always
    /// required. The decision point is asked the request that
    /// `build_request_with` builds, and whatever it answers, the result is
    /// what `conclude` makes of that answer.
    pub fn access_scope_with(
        &self,
        ctx: &SecurityContext,
        resource: &ResourceType,
        action: &str,
        resource_id: Option<Uuid>,
        request: &AccessRequest,
    ) -> (result: Result<AccessScope, EnforcerError>)
        ensures
            self.may_give(ctx@, *resource, action@, resource_id, request@, enforcement(result)),
    {
        let evaluation_request = self.build_request_with(
            ctx,
            resource,
            action,
            resource_id,
            true,
            request,
        );
        let evaluation = self.authz.evaluate(evaluation_request);
        let result = PolicyEnforcer::<P>::conclude(evaluation, resource);
        proof {
            assert(enforcement(result) == enforced(
                evaluation,
                supported_set(resource.supported_properties@),
            ));
        }
        result
    }
}

/// A fresh vector with the capabilities, in order.
fn copy_capabilities(source: &[Capability]) -> (copy: Vec<Capability>)
    ensures
        copy@ == source@,
{
    let mut copy: Vec<Capability> = Vec::new();
    let mut k: usize = 0;
    while k < source.len()
        invariant
            k <= source.len(),
            copy@ == source@.take(k as int),
        decreases source.len() - k,
    {
        copy.push(source[k]);
        proof {
            assert(source@.take(k + 1) == source@.take(k as int).push(source@[k as int]));
        }
        k += 1;
    }
    proof {
        assert(source@.take(source@.len() as int) == source@);
    }
    copy
}

} // verus!
