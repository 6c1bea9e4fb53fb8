//! The evaluation protocol between an enforcement point and a decision
//! point: what is asked, and what is answered.

use vstd::prelude::*;

use crate::constraints::Constraint;
use crate::id::Uuid;
use crate::property_map::PropertyMap;
use crate::secret::{opt_token_text, BearerToken};
use crate::text::{copy_opt_strings, opt_text, opt_texts, texts};

verus! {

/// How far below the root tenant the evaluation reaches.
#[derive(Clone, Copy, Debug, PartialEq, Eq, Structural)]
pub enum TenantMode {
    /// The root tenant and its descendants.
    Subtree,
    /// The root tenant alone.
    RootOnly,
}

impl Default for TenantMode {
    /// `Subtree`.
    fn default() -> (mode: TenantMode)
        ensures
            mode == TenantMode::Subtree,
    {
        TenantMode::Subtree
    }
}

/// Whether the decision point stops at tenant-hierarchy barriers.
#[derive(Clone, Copy, Debug, PartialEq, Eq, Structural)]
pub enum BarrierMode {
    /// Barriers are honoured.
    Respect,
    /// Barriers are crossed.
    Ignore,
}

impl Default for BarrierMode {
    /// `Respect`.
    fn default() -> (mode: BarrierMode)
        ensures
            mode == BarrierMode::Respect,
    {
        BarrierMode::Respect
    }
}

/// What an enforcement point can do with an answer, told to the decision
/// point so that it answers in terms the caller understands.
#[derive(Clone, Copy, Debug, PartialEq, Eq, Structural)]
pub enum Capability {
    /// The caller can resolve tenant hierarchies itself.
    TenantHierarchy,
}

/// The tenant context of an evaluation.
#[derive(Clone, Debug, PartialEq, Eq)]
pub struct TenantContext {
    /// How far below the root the evaluation reaches.
    pub mode: TenantMode,
    /// The tenant that is operated on.
    pub root_id: Option<Uuid>,
    /// Whether barriers are honoured.
    pub barrier_mode: BarrierMode,
    /// The tenant statuses to which the evaluation is limited, if it is.
    pub tenant_status: Option<Vec<String>>,
}

/// What a tenant context says.
pub struct TenantContextView {
    pub mode: TenantMode,
    pub root_id: Option<Uuid>,
    pub barrier_mode: BarrierMode,
    pub tenant_status: Option<Seq<Seq<char>>>,
}

impl View for TenantContext {
    type V = TenantContextView;

    open spec fn view(&self) -> TenantContextView {
        TenantContextView {
            mode: self.mode,
            root_id: self.root_id,
            barrier_mode: self.barrier_mode,
            tenant_status: opt_texts(self.tenant_status),
        }
    }
}

impl TenantContextView {
    /// The context in which nothing is set: subtree mode, no root, barriers
    /// honoured, no status filter.
    pub open spec fn unset() -> TenantContextView {
        TenantContextView {
            mode: TenantMode::Subtree,
            root_id: None,
            barrier_mode: BarrierMode::Respect,
            tenant_status: None,
        }
    }
}

impl Default for TenantContext {
    /// The context in which nothing is set.
    fn default() -> (context: TenantContext)
        ensures
            context@ == TenantContextView::unset(),
    {
        TenantContext {
            mode: TenantMode::Subtree,
            root_id: None,
            barrier_mode: BarrierMode::Respect,
            tenant_status: None,
        }
    }
}

impl TenantContext {
    /// A copy of the context.
    pub fn duplicate(&self) -> (copy: TenantContext)
        ensures
            copy@ == self@,
    {
        TenantContext {
            mode: self.mode,
            root_id: self.root_id,
            barrier_mode: self.barrier_mode,
            tenant_status: copy_opt_strings(&self.tenant_status),
        }
    }
}

/// What an optional tenant context says.
pub open spec fn opt_tenant_context_view(context: Option<TenantContext>) -> Option<
    TenantContextView,
> {
    match context {
        Some(c) => Some(c@),
        None => None,
    }
}

/// The subject that makes the request.
#[derive(Debug)]
pub struct Subject {
    /// The subject's identifier.
    pub id: Uuid,
    /// The kind of subject, such as a user or a service.
    pub subject_type: Option<String>,
    /// Further properties; `tenant_id` holds the subject's tenant when it
    /// is known.
    pub properties: PropertyMap,
}

/// What a subject says.
pub struct SubjectView {
    pub id: Uuid,
    pub subject_type: Option<Seq<char>>,
    pub properties: Map<Seq<char>, serde_json::Value>,
}

impl View for Subject {
    type V = SubjectView;

    open spec fn view(&self) -> SubjectView {
        SubjectView {
            id: self.id,
            subject_type: opt_text(self.subject_type),
            properties: self.properties@,
        }
    }
}

/// The action that is performed.
#[derive(Clone, Debug, PartialEq, Eq)]
pub struct Action {
    /// The name of the action, such as `list` or `get`.
    pub name: String,
}

/// The resource that is accessed.
#[derive(Debug)]
pub struct Resource {
    /// The dotted name of the resource type.
    pub resource_type: String,
    /// The one resource that is meant, if one is.
    pub id: Option<Uuid>,
    /// Further properties of the resource.
    pub properties: PropertyMap,
}

/// What a resource says.
pub struct ResourceView {
    pub resource_type: Seq<char>,
    pub id: Option<Uuid>,
    pub properties: Map<Seq<char>, serde_json::Value>,
}

impl View for Resource {
    type V = ResourceView;

    open spec fn view(&self) -> ResourceView {
        ResourceView {
            resource_type: self.resource_type@,
            id: self.id,
            properties: self.properties@,
        }
    }
}

/// The context of the evaluation.
#[derive(Debug)]
pub struct Context {
    /// The tenant context, when a root tenant is known.
    pub tenant_context: Option<TenantContext>,
    /// The scopes of the caller's token, in the caller's order.
    pub token_scopes: Vec<String>,
    /// Whether the decision point must describe the accessible rows by
    /// constraints.
    pub require_constraints: bool,
    /// What the caller can resolve itself.
    pub capabilities: Vec<Capability>,
    /// The property names that the caller can compile.
    pub supported_properties: Vec<String>,
    /// The caller's bearer token, which formatting never shows.
    pub bearer_token: Option<BearerToken>,
    /// Further properties of the context.
    pub properties: PropertyMap,
}

/// What an evaluation context says.
pub struct ContextView {
    pub tenant_context: Option<TenantContextView>,
    pub token_scopes: Seq<Seq<char>>,
    pub require_constraints: bool,
    pub capabilities: Seq<Capability>,
    pub supported_properties: Seq<Seq<char>>,
    pub bearer_token: Option<Seq<char>>,
    pub properties: Map<Seq<char>, serde_json::Value>,
}

impl View for Context {
    type V = ContextView;

    open spec fn view(&self) -> ContextView {
        ContextView {
            tenant_context: opt_tenant_context_view(self.tenant_context),
            token_scopes: texts(self.token_scopes@),
            require_constraints: self.require_constraints,
            capabilities: self.capabilities@,
            supported_properties: texts(self.supported_properties@),
            bearer_token: opt_token_text(self.bearer_token),
            properties: self.properties@,
        }
    }
}

/// An authorization question: who does what to which resource, in which
/// context.
#[derive(Debug)]
pub struct EvaluationRequest {
    /// Who asks.
    pub subject: Subject,
    /// What is done.
    pub action: Action,
    /// To what.
    pub resource: Resource,
    /// In which context.
    pub context: Context,
}

/// What an evaluation request says.
pub struct EvaluationRequestView {
    pub subject: SubjectView,
    pub action: Seq<char>,
    pub resource: ResourceView,
    pub context: ContextView,
}

impl View for EvaluationRequest {
    type V = EvaluationRequestView;

    open spec fn view(&self) -> EvaluationRequestView {
        EvaluationRequestView {
            subject: self.subject@,
            action: self.action.name@,
            resource: self.resource@,
            context: self.context@,
        }
    }
}

/// The answer of a decision point.
#[derive(Clone, Debug, PartialEq, Eq)]
pub struct EvaluationResponse {
    /// Whether access is granted.
    pub decision: bool,
    /// The row-level constraints of a grant, which are OR-ed.
    pub constraints: Vec<Constraint>,
    /// Why access was denied, for the audit log only.
    pub deny_reason: Option<String>,
}

} // verus!
