//! The enforcement point in front of the reference decision point: what
//! the full flow gives, for every caller and every call.

use vstd::prelude::*;

use crate::access_scope::{AccessScopeView, FilterOp, ScopeFilterView};
use crate::api::{
    AuthZResolverGatewayClient, AuthZResolverGwLocalClient, AuthZResolverPluginClient,
};
use crate::constraints::Constraint;
use crate::error::AuthZResolverError;
use crate::id::Uuid;
use crate::models::EvaluationResponse;
use crate::pep::compiler::{
    compiled, compiled_constraint, constraint_failure, distinct_properties, failure_reason,
    failures, first_unsupported, first_valueless, merged_filters, supported_set, survivors, values_on, Compiled,
};
use crate::pep::enforcer::{
    built_request, enforced, resolved_root_id, strictly, AccessRequestView, Enforced,
    PolicyEnforcer, ResourceType,
};
use crate::properties;
use crate::security_context::SecurityContextView;
use crate::static_authz_plugin::{is_reference_answer, is_tenant_constraint, scoping_tenant, Service};
use crate::text::{joined, name_texts};

verus! {

/// The scope of one access path with one filter: the owning tenant is
/// `tenant`.
pub open spec fn tenant_scope(tenant: Uuid) -> AccessScopeView {
    AccessScopeView::constrained(
        seq![
            seq![
                ScopeFilterView {
                    property: properties::OWNER_TENANT_ID@,
                    op: FilterOp::In,
                    values: seq![tenant],
                },
            ],
        ],
    )
}

/// What the tenant constraint compiles to: the tenant filter where the
/// owning tenant is a supported property, and a failure that names the
/// property where it is not.
pub proof fn lemma_tenant_constraint_compiles(
    constraint: Constraint,
    tenant: Uuid,
    supported: Set<Seq<char>>,
)
    requires
        is_tenant_constraint(constraint, tenant),
    ensures
        supported.contains(properties::OWNER_TENANT_ID@) ==> compiled_constraint(
            constraint,
            supported,
        ) == Some(tenant_scope(tenant).constraints[0]) && constraint_failure(constraint, supported)
            is None,
        !supported.contains(properties::OWNER_TENANT_ID@) ==> compiled_constraint(
            constraint,
            supported,
        ) is None && constraint_failure(constraint, supported) == Some(
            failure_reason(properties::OWNER_TENANT_ID@),
        ),
{
    let predicates = constraint.predicates@;
    let property = properties::OWNER_TENANT_ID@;
    assert(predicates.skip(1).len() == 0);
    assert(first_unsupported(predicates.skip(1), supported) is None);
    assert(predicates.drop_last().len() == 0);
    assert(distinct_properties(predicates.drop_last()) == Seq::<Seq<char>>::empty());
    assert(!distinct_properties(predicates.drop_last()).contains(property));
    assert(distinct_properties(predicates) == Seq::<Seq<char>>::empty().push(property));
    assert(values_on(predicates.drop_last(), property) == Seq::<Uuid>::empty());
    assert(values_on(predicates, property) =~= seq![tenant]);
    assert(merged_filters(predicates) =~= tenant_scope(tenant).constraints[0]);
    assert(merged_filters(predicates)[0].values.len() == 1);
    assert(first_valueless(merged_filters(predicates).skip(1)) is None);
    assert(first_valueless(merged_filters(predicates)) is None);
}

/// What the compiler makes of a reference answer, with constraints
/// required.
pub proof fn lemma_reference_answer_compiles(
    response: EvaluationResponse,
    tenant: Option<Uuid>,
    supported: Set<Seq<char>>,
)
    requires
        response.decision,
        match tenant {
            Some(id) => response.constraints@.len() == 1 && is_tenant_constraint(
                response.constraints@[0],
                id,
            ),
            None => response.constraints@.len() == 0,
        },
    ensures
        compiled(response, true, supported) == (match tenant {
            Some(id) => if supported.contains(properties::OWNER_TENANT_ID@) {
                Compiled::Scope(tenant_scope(id))
            } else {
                Compiled::AllConstraintsFailed(failure_reason(properties::OWNER_TENANT_ID@))
            },
            None => Compiled::Scope(AccessScopeView::allow_all()),
        }),
{
    if let Some(id) = tenant {
        let constraints = response.constraints@;
        lemma_tenant_constraint_compiles(constraints[0], id, supported);
        assert(constraints.drop_last().len() == 0);
        let keep = |c: Constraint| compiled_constraint(c, supported);
        let fail = |c: Constraint| constraint_failure(c, supported);
        assert(constraints.drop_last().filter_map(keep) == Seq::<Seq<ScopeFilterView>>::empty());
        assert(constraints.drop_last().filter_map(fail) == Seq::<Seq<char>>::empty());
        assert(constraints.last() == constraints[0]);
        if supported.contains(properties::OWNER_TENANT_ID@) {
            assert(survivors(constraints, supported) =~= tenant_scope(id).constraints);
        } else {
            assert(survivors(constraints, supported) =~= Seq::<Seq<ScopeFilterView>>::empty());
            assert(failures(constraints, supported) =~= seq![
                failure_reason(properties::OWNER_TENANT_ID@),
            ]);
            assert(joined(failures(constraints, supported), "; "@) == failure_reason(
                properties::OWNER_TENANT_ID@,
            ));
        }
    }
}

/// In front of the reference decision point, the full flow never fails to
/// evaluate, and what it gives depends on the root tenant alone. With a
/// root tenant, which is the overridden root or else the subject's tenant,
/// the caller gets the scope of that one tenant, provided that the resource
/// supports the owning tenant as a property; if it does not, the caller is
/// refused with `AllConstraintsFailed`. Without a root tenant, as for an
/// anonymous caller, the grant is unrestricted: the scope is allow-all.
pub proof fn law_reference_flow(
    enforcer: PolicyEnforcer<AuthZResolverGwLocalClient<Service>>,
    context: SecurityContextView,
    resource: ResourceType,
    action: Seq<char>,
    resource_id: Option<Uuid>,
    overrides: AccessRequestView,
    given: Enforced,
)
    requires
        enforcer.may_give(context, resource, action, resource_id, overrides, given),
    ensures
        given == (match resolved_root_id(context, overrides) {
            Some(root) => if supported_set(resource.supported_properties@).contains(
                properties::OWNER_TENANT_ID@,
            ) {
                Enforced::Scope(tenant_scope(root))
            } else {
                Enforced::AllConstraintsFailed(failure_reason(properties::OWNER_TENANT_ID@))
            },
            None => Enforced::Scope(AccessScopeView::allow_all()),
        }),
{
    let supported = supported_set(resource.supported_properties@);
    let request = built_request(
        enforcer.spec_capabilities(),
        context,
        resource.name@,
        name_texts(resource.supported_properties@),
        action,
        resource_id,
        true,
        overrides,
    );
    let evaluation = choose|evaluation: Result<EvaluationResponse, AuthZResolverError>|
        #![trigger enforced(evaluation, supported)]
        enforcer.spec_client().may_answer(request, evaluation) && given == enforced(
            evaluation,
            supported,
        );
    assert(evaluation is Ok && is_reference_answer(request, evaluation->Ok_0));
    assert(scoping_tenant(request) == resolved_root_id(context, overrides));
    lemma_reference_answer_compiles(evaluation->Ok_0, scoping_tenant(request), supported);
}

/// Under the strict reading, in front of the reference decision point, a
/// caller without a root tenant, such as an anonymous caller, is refused
/// with `AllConstraintsFailed`, and a caller with one gets what the lenient
/// flow gives.
pub proof fn law_reference_flow_strict(
    enforcer: PolicyEnforcer<AuthZResolverGwLocalClient<Service>>,
    context: SecurityContextView,
    resource: ResourceType,
    action: Seq<char>,
    resource_id: Option<Uuid>,
    overrides: AccessRequestView,
    given: Enforced,
)
    requires
        enforcer.may_give(context, resource, action, resource_id, overrides, given),
    ensures
        resolved_root_id(context, overrides) is None ==> strictly(given)
            is AllConstraintsFailed,
        resolved_root_id(context, overrides) is Some ==> strictly(given) == given,
{
    law_reference_flow(enforcer, context, resource, action, resource_id, overrides, given);
}

} // verus!
