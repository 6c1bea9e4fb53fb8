use authz_core::access_scope::{AccessScope, FilterOp, ScopeConstraint, ScopeFilter};
use authz_core::properties;
use authz_core::Uuid;

fn id(text: &str) -> Uuid {
    Uuid::from_u128(uuid::Uuid::parse_str(text).unwrap().as_u128())
}

fn fresh() -> Uuid {
    Uuid::from_u128(uuid::Uuid::new_v4().as_u128())
}

const T1: &str = "11111111-1111-1111-1111-111111111111";
const T2: &str = "22222222-2222-2222-2222-222222222222";
const R1: &str = "aaaaaaaa-aaaa-aaaa-aaaa-aaaaaaaaaaaa";

#[test]
fn test_deny_all_scope() {
    let scope = AccessScope::default();
    assert!(scope.is_deny_all());
}

#[test]
fn test_allow_all_scope() {
    let scope = AccessScope::allow_all();
    assert!(scope.is_unconstrained());
}

#[test]
fn test_tenant_scope_not_empty() {
    let tid = fresh();
    let scope = AccessScope::for_tenant(tid);
    assert!(!scope.is_deny_all());
    assert!(scope.contains_value(properties::OWNER_TENANT_ID, tid));
}

#[test]
fn test_or_scope_has_multiple_constraints() {
    let t1 = fresh();
    let t2 = fresh();
    let r1 = fresh();

    let scope = AccessScope::from_constraints(vec![
        ScopeConstraint::new(vec![
            ScopeFilter::new(properties::OWNER_TENANT_ID, FilterOp::In, vec![t1]),
            ScopeFilter::new(properties::RESOURCE_ID, FilterOp::In, vec![r1]),
        ]),
        ScopeConstraint::new(vec![ScopeFilter::new(
            properties::OWNER_TENANT_ID,
            FilterOp::In,
            vec![t2],
        )]),
    ]);
    assert_eq!(scope.constraints().len(), 2);
}

#[test]
fn default_scope_is_deny_all_and_not_unconstrained() {
    let scope = AccessScope::default();
    assert!(scope.is_deny_all());
    assert!(!scope.is_unconstrained());
    assert!(scope.constraints().is_empty());
    assert_eq!(scope, AccessScope::deny_all());
}

#[test]
fn allow_all_is_not_deny_all() {
    let scope = AccessScope::allow_all();
    assert!(scope.is_unconstrained());
    assert!(!scope.is_deny_all());
    assert!(scope.constraints().is_empty());
}

#[test]
fn filter_accessors_return_what_was_given() {
    let filter = ScopeFilter::new("owner_id", FilterOp::In, vec![id(T1), id(T2)]);
    assert_eq!(filter.property(), "owner_id");
    assert_eq!(*filter.op(), FilterOp::In);
    assert_eq!(filter.values(), &[id(T1), id(T2)]);
}

#[test]
fn constraint_accessors_return_what_was_given() {
    let empty = ScopeConstraint::new(vec![]);
    assert!(empty.is_empty());
    assert!(empty.filters().is_empty());

    let filter = ScopeFilter::new(properties::RESOURCE_ID, FilterOp::In, vec![id(R1)]);
    let one = ScopeConstraint::new(vec![filter.clone()]);
    assert!(!one.is_empty());
    assert_eq!(one.filters(), &[filter]);
}

#[test]
fn single_wraps_one_constraint() {
    let constraint = ScopeConstraint::new(vec![ScopeFilter::new(
        properties::OWNER_ID,
        FilterOp::In,
        vec![id(T1)],
    )]);
    let scope = AccessScope::single(constraint.clone());
    assert!(!scope.is_unconstrained());
    assert_eq!(scope.constraints(), &[constraint]);
}

#[test]
fn for_tenants_builds_one_tenant_filter() {
    let scope = AccessScope::for_tenants(vec![id(T1), id(T2)]);
    assert_eq!(scope.constraints().len(), 1);
    let filters = scope.constraints()[0].filters();
    assert_eq!(filters.len(), 1);
    assert_eq!(filters[0].property(), "owner_tenant_id");
    assert_eq!(filters[0].values(), &[id(T1), id(T2)]);
    assert_eq!(scope, AccessScope::for_tenants(vec![id(T1), id(T2)]));
}

#[test]
fn for_resource_builds_one_resource_filter() {
    let scope = AccessScope::for_resource(id(R1));
    assert_eq!(scope.constraints().len(), 1);
    let filters = scope.constraints()[0].filters();
    assert_eq!(filters.len(), 1);
    assert_eq!(filters[0].property(), "id");
    assert_eq!(filters[0].values(), &[id(R1)]);
    assert_eq!(scope, AccessScope::for_resources(vec![id(R1)]));
}

#[test]
fn for_tenants_and_resources_puts_both_filters_in_one_path() {
    let scope = AccessScope::for_tenants_and_resources(vec![id(T1)], vec![id(R1)]);
    assert_eq!(scope.constraints().len(), 1);
    let filters = scope.constraints()[0].filters();
    assert_eq!(filters.len(), 2);
    assert_eq!(filters[0].property(), "owner_tenant_id");
    assert_eq!(filters[0].values(), &[id(T1)]);
    assert_eq!(filters[1].property(), "id");
    assert_eq!(filters[1].values(), &[id(R1)]);
}

#[test]
fn for_tenants_and_resources_skips_an_empty_list() {
    let tenants_only = AccessScope::for_tenants_and_resources(vec![id(T1)], vec![]);
    assert_eq!(tenants_only, AccessScope::for_tenants(vec![id(T1)]));

    let resources_only = AccessScope::for_tenants_and_resources(vec![], vec![id(R1)]);
    assert_eq!(resources_only, AccessScope::for_resources(vec![id(R1)]));
}

#[test]
fn for_tenants_and_resources_with_nothing_is_deny_all() {
    let scope = AccessScope::for_tenants_and_resources(vec![], vec![]);
    assert!(scope.is_deny_all());
    assert_eq!(scope, AccessScope::deny_all());
}

#[test]
fn all_values_for_collects_across_constraints_in_order() {
    let scope = AccessScope::from_constraints(vec![
        ScopeConstraint::new(vec![
            ScopeFilter::new(properties::OWNER_TENANT_ID, FilterOp::In, vec![id(T1)]),
            ScopeFilter::new(properties::RESOURCE_ID, FilterOp::In, vec![id(R1)]),
        ]),
        ScopeConstraint::new(vec![ScopeFilter::new(
            properties::OWNER_TENANT_ID,
            FilterOp::In,
            vec![id(T2), id(T1)],
        )]),
    ]);
    assert_eq!(
        scope.all_values_for(properties::OWNER_TENANT_ID),
        vec![id(T1), id(T2), id(T1)]
    );
    assert_eq!(scope.all_values_for(properties::RESOURCE_ID), vec![id(R1)]);
    assert!(scope.all_values_for(properties::OWNER_ID).is_empty());
    assert!(AccessScope::allow_all().all_values_for("id").is_empty());
}

#[test]
fn contains_value_looks_at_property_and_value() {
    let scope = AccessScope::for_tenants_and_resources(vec![id(T1)], vec![id(R1)]);
    assert!(scope.contains_value(properties::OWNER_TENANT_ID, id(T1)));
    assert!(scope.contains_value(properties::RESOURCE_ID, id(R1)));
    assert!(!scope.contains_value(properties::OWNER_TENANT_ID, id(R1)));
    assert!(!scope.contains_value(properties::RESOURCE_ID, id(T1)));
    assert!(!scope.contains_value(properties::OWNER_ID, id(T1)));
    assert!(!AccessScope::deny_all().contains_value(properties::RESOURCE_ID, id(R1)));
}

#[test]
fn has_property_looks_at_every_filter() {
    let scope = AccessScope::for_tenants_and_resources(vec![id(T1)], vec![id(R1)]);
    assert!(scope.has_property("owner_tenant_id"));
    assert!(scope.has_property("id"));
    assert!(!scope.has_property("owner_id"));
    assert!(!scope.has_property("owner_tenant_i"));
    assert!(!AccessScope::allow_all().has_property("id"));
}

#[test]
fn well_known_property_names() {
    assert_eq!(properties::OWNER_TENANT_ID, "owner_tenant_id");
    assert_eq!(properties::RESOURCE_ID, "id");
    assert_eq!(properties::OWNER_ID, "owner_id");
}

#[test]
fn identifier_text_is_hyphenated_lower_case() {
    assert_eq!(id(T1).to_string(), T1);
    assert_eq!(
        Uuid::from_u128(0xABCDEF0123456789_0000_0000_0000_00FFu128).to_string(),
        "abcdef01-2345-6789-0000-0000000000ff"
    );
    assert_eq!(Uuid::nil().to_string(), "00000000-0000-0000-0000-000000000000");
}

#[test]
fn identifier_keeps_its_bits() {
    let value = 0x1234_5678_9abc_def0_0fed_cba9_8765_4321u128;
    assert_eq!(Uuid::from_u128(value).as_u128(), value);
    assert!(Uuid::nil().is_nil());
    assert!(Uuid::default().is_nil());
    assert!(!Uuid::from_u128(1).is_nil());
    assert_eq!(Uuid::from_u128(0), Uuid::nil());
}

#[test]
fn contains_value_agrees_with_all_values_for() {
    let scopes = vec![
        AccessScope::deny_all(),
        AccessScope::allow_all(),
        AccessScope::for_tenant(id(T1)),
        AccessScope::for_tenants_and_resources(vec![id(T1), id(T2)], vec![id(R1)]),
        AccessScope::from_constraints(vec![
            ScopeConstraint::new(vec![]),
            ScopeConstraint::new(vec![
                ScopeFilter::new(properties::OWNER_ID, FilterOp::In, vec![id(T2)]),
                ScopeFilter::new(properties::OWNER_ID, FilterOp::In, vec![]),
            ]),
        ]),
    ];
    let names = [properties::OWNER_TENANT_ID, properties::RESOURCE_ID, properties::OWNER_ID, "x"];
    let values = [id(T1), id(T2), id(R1), Uuid::nil()];
    for scope in &scopes {
        for name in names {
            let all = scope.all_values_for(name);
            for value in values {
                assert_eq!(scope.contains_value(name, value), all.contains(&value));
            }
        }
    }
}

#[test]
fn for_tenants_without_ids_is_deny_all() {
    let scope = AccessScope::for_tenants(vec![]);
    assert!(scope.is_deny_all());
    assert!(scope.constraints().is_empty());
    assert!(!scope.is_unconstrained());
    assert_eq!(scope, AccessScope::deny_all());
}

#[test]
fn for_resources_without_ids_is_deny_all() {
    let scope = AccessScope::for_resources(vec![]);
    assert!(scope.is_deny_all());
    assert!(scope.constraints().is_empty());
    assert_eq!(scope, AccessScope::deny_all());
}

#[test]
fn convenience_constructors_never_build_a_filter_without_values() {
    let scopes = vec![
        AccessScope::for_tenants(vec![]),
        AccessScope::for_tenants(vec![id(T1)]),
        AccessScope::for_resources(vec![]),
        AccessScope::for_resources(vec![id(R1), id(R1)]),
        AccessScope::for_tenant(id(T1)),
        AccessScope::for_resource(id(R1)),
        AccessScope::for_tenants_and_resources(vec![], vec![]),
        AccessScope::for_tenants_and_resources(vec![id(T1)], vec![]),
        AccessScope::for_tenants_and_resources(vec![], vec![id(R1)]),
    ];
    for scope in scopes {
        for constraint in scope.constraints() {
            for filter in constraint.filters() {
                assert!(!filter.values().is_empty());
            }
        }
    }
}
