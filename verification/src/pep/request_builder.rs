//! Building an evaluation request without an enforcer, from the security
//! context and an explicit context tenant.

use vstd::prelude::*;

use crate::id::Uuid;
use crate::json::string_value;
use crate::models::{
    Action, Context, ContextView, EvaluationRequest, EvaluationRequestView, Resource, ResourceView,
    Subject, SubjectView, TenantContext, TenantContextView,
};
use crate::pep::enforcer::subject_properties;
use crate::property_map::PropertyMap;
use crate::security_context::{SecurityContext, SecurityContextView};
use crate::text::{copy_strings, texts};

verus! {

/// The tenant context of an explicit context tenant: that root with
/// nothing else set, where the tenant is given and not nil.
pub open spec fn explicit_tenant_context(context_tenant_id: Option<Uuid>) -> Option<
    TenantContextView,
> {
    match context_tenant_id {
        Some(id) => if id != Uuid::spec_nil() {
            Some(TenantContextView { root_id: Some(id), ..TenantContextView::unset() })
        } else {
            None
        },
        None => None,
    }
}

/// The plain evaluation request: subject, action and resource as given, the
/// explicit context tenant, the token scopes, and nothing else.
pub open spec fn plain_request(
    context: SecurityContextView,
    action_name: Seq<char>,
    resource_type: Seq<char>,
    resource_id: Option<Uuid>,
    require_constraints: bool,
    context_tenant_id: Option<Uuid>,
) -> EvaluationRequestView {
    EvaluationRequestView {
        subject: SubjectView {
            id: context.subject_id,
            subject_type: None,
            properties: subject_properties(context),
        },
        action: action_name,
        resource: ResourceView { resource_type, id: resource_id, properties: Map::empty() },
        context: ContextView {
            tenant_context: explicit_tenant_context(context_tenant_id),
            token_scopes: context.token_scopes,
            require_constraints,
            capabilities: Seq::empty(),
            supported_properties: Seq::empty(),
            bearer_token: None,
            properties: Map::empty(),
        },
    }
}

/// Builds an evaluation request from the security context and what the
/// caller says of the operation. The context tenant is the caller's to
/// choose; a nil tenant counts as none. The request tells of no capability
/// and of no supported property, and carries no bearer token.
pub fn build_evaluation_request(
    ctx: &SecurityContext,
    action_name: &str,
    resource_type: &str,
    resource_id: Option<Uuid>,
    require_constraints: bool,
    context_tenant_id: Option<Uuid>,
) -> (request: EvaluationRequest)
    ensures
        request@ == plain_request(
            ctx@,
            action_name@,
            resource_type@,
            resource_id,
            require_constraints,
            context_tenant_id,
        ),
{
    let tenant_context = match context_tenant_id {
        Some(id) => if id.is_nil() {
            None
        } else {
            let mut context = TenantContext::default();
            context.root_id = Some(id);
            Some(context)
        },
        None => None,
    };
    let mut properties = PropertyMap::new();
    match ctx.subject_tenant_id() {
        Some(tenant) => {
            properties.insert("tenant_id", string_value(tenant.to_string()));
        },
        None => {},
    }
    let supported_properties: Vec<String> = Vec::new();
    proof {
        assert(texts(supported_properties@) =~= Seq::<Seq<char>>::empty());
    }
    EvaluationRequest {
        subject: Subject { id: ctx.subject_id(), subject_type: None, properties },
        action: Action { name: action_name.to_owned() },
        resource: Resource {
            resource_type: resource_type.to_owned(),
            id: resource_id,
            properties: PropertyMap::new(),
        },
        context: Context {
            tenant_context,
            token_scopes: copy_strings(ctx.token_scopes()),
            require_constraints,
            capabilities: Vec::new(),
            supported_properties,
            bearer_token: None,
            properties: PropertyMap::new(),
        },
    }
}

} // verus!
