use authz_core::access_scope::{AccessScope, FilterOp, ScopeConstraint, ScopeFilter};
use authz_core::cond::{build_scope_condition, ColumnIn, Condition, PropertyColumns};
use authz_core::constraints::{Constraint, InPredicate, Predicate};
use authz_core::models::EvaluationResponse;
use authz_core::pep::compiler::compile_to_access_scope;
use authz_core::Uuid;

fn id(text: &str) -> Uuid {
    Uuid::from_u128(uuid::Uuid::parse_str(text).unwrap().as_u128())
}

const T1: &str = "11111111-1111-1111-1111-111111111111";
const T2: &str = "22222222-2222-2222-2222-222222222222";
const T3: &str = "33333333-3333-3333-3333-333333333333";
const R1: &str = "aaaaaaaa-aaaa-aaaa-aaaa-aaaaaaaaaaaa";
const R2: &str = "bbbbbbbb-bbbb-bbbb-bbbb-bbbbbbbbbbbb";

#[derive(Clone, Copy, Debug, PartialEq, Eq)]
enum Column {
    Id,
    TenantId,
    OwnerId,
}

fn user_columns() -> PropertyColumns<Column> {
    PropertyColumns::new(vec![
        ("owner_tenant_id".to_owned(), Column::TenantId),
        ("id".to_owned(), Column::Id),
    ])
}

/// A stored row: the value of each column that is not null.
type Row = Vec<(Column, Uuid)>;

fn row(tenant: &str, resource: &str) -> Row {
    vec![(Column::TenantId, id(tenant)), (Column::Id, id(resource))]
}

/// Whether a row passes a condition, by the meaning of a condition.
fn passes(condition: &Condition<Column>, row: &Row) -> bool {
    match condition {
        Condition::True => true,
        Condition::False => false,
        Condition::AnyOf(groups) => groups.iter().any(|group| {
            group.iter().all(|term| {
                row.iter()
                    .any(|(column, value)| *column == term.column && term.values.contains(value))
            })
        }),
    }
}

fn sample_rows() -> Vec<Row> {
    vec![
        row(T1, R1),
        row(T1, R2),
        row(T2, R1),
        row(T2, R2),
        row(T3, R1),
        vec![(Column::Id, id(R1))],
        vec![],
    ]
}

fn filter(property: &str, values: &[&str]) -> ScopeFilter {
    ScopeFilter::new(property, FilterOp::In, values.iter().map(|v| id(v)).collect())
}

#[test]
fn default_scope_translates_to_always_false() {
    let condition = build_scope_condition(&AccessScope::default(), &user_columns());
    assert_eq!(condition, Condition::False);
    for r in sample_rows() {
        assert!(!passes(&condition, &r));
    }
}

#[test]
fn deny_all_rejects_every_row_and_allow_all_accepts_every_row() {
    let deny = build_scope_condition(&AccessScope::deny_all(), &user_columns());
    let allow = build_scope_condition(&AccessScope::allow_all(), &user_columns());
    assert_eq!(deny, Condition::False);
    assert_eq!(allow, Condition::True);
    for r in sample_rows() {
        assert!(!passes(&deny, &r));
        assert!(passes(&allow, &r));
    }
}

#[test]
fn single_constraint_is_the_and_of_its_filters() {
    let scope = AccessScope::for_tenants_and_resources(vec![id(T1)], vec![id(R1), id(R2)]);
    let condition = build_scope_condition(&scope, &user_columns());
    assert_eq!(
        condition,
        Condition::AnyOf(vec![vec![
            ColumnIn { column: Column::TenantId, values: vec![id(T1)] },
            ColumnIn { column: Column::Id, values: vec![id(R1), id(R2)] },
        ]])
    );
    assert!(passes(&condition, &row(T1, R1)));
    assert!(passes(&condition, &row(T1, R2)));
    assert!(!passes(&condition, &row(T2, R1)));
    assert!(!passes(&condition, &vec![(Column::Id, id(R1))]));
    assert!(!passes(&condition, &vec![(Column::TenantId, id(T1))]));
}

#[test]
fn constraints_are_ored() {
    let scope = AccessScope::from_constraints(vec![
        ScopeConstraint::new(vec![filter("owner_tenant_id", &[T1]), filter("id", &[R1])]),
        ScopeConstraint::new(vec![filter("owner_tenant_id", &[T2])]),
    ]);
    let condition = build_scope_condition(&scope, &user_columns());
    assert_eq!(
        condition,
        Condition::AnyOf(vec![
            vec![
                ColumnIn { column: Column::TenantId, values: vec![id(T1)] },
                ColumnIn { column: Column::Id, values: vec![id(R1)] },
            ],
            vec![ColumnIn { column: Column::TenantId, values: vec![id(T2)] }],
        ])
    );
    assert!(passes(&condition, &row(T1, R1)));
    assert!(!passes(&condition, &row(T1, R2)));
    assert!(passes(&condition, &row(T2, R1)));
    assert!(passes(&condition, &row(T2, R2)));
    assert!(!passes(&condition, &row(T3, R1)));
}

#[test]
fn two_tenants_via_or_returns_rows_of_either_tenant() {
    let response = EvaluationResponse {
        decision: true,
        constraints: vec![
            Constraint {
                predicates: vec![Predicate::In(InPredicate {
                    property: "owner_tenant_id".to_owned(),
                    values: vec![id(T1)],
                })],
            },
            Constraint {
                predicates: vec![Predicate::In(InPredicate {
                    property: "owner_tenant_id".to_owned(),
                    values: vec![id(T2)],
                })],
            },
        ],
        deny_reason: None,
    };
    let scope = compile_to_access_scope(&response, true, &["owner_tenant_id", "id"]).unwrap();
    let union = scope.all_values_for("owner_tenant_id");
    assert!(union.contains(&id(T1)));
    assert!(union.contains(&id(T2)));

    let condition = build_scope_condition(&scope, &user_columns());
    assert!(passes(&condition, &row(T1, R1)));
    assert!(passes(&condition, &row(T2, R2)));
    assert!(!passes(&condition, &row(T3, R1)));
}

#[test]
fn unknown_property_rejects_every_row() {
    let scope = AccessScope::single(ScopeConstraint::new(vec![filter("weird", &[T1])]));
    let columns = user_columns();
    assert_eq!(columns.resolve_property("weird"), None);
    let condition = build_scope_condition(&scope, &columns);
    assert_eq!(condition, Condition::False);
    for r in sample_rows() {
        assert!(!passes(&condition, &r));
    }
}

#[test]
fn unknown_property_drops_only_its_constraint() {
    let scope = AccessScope::from_constraints(vec![
        ScopeConstraint::new(vec![filter("owner_tenant_id", &[T1]), filter("weird", &[T1])]),
        ScopeConstraint::new(vec![filter("id", &[R2])]),
    ]);
    let condition = build_scope_condition(&scope, &user_columns());
    assert_eq!(
        condition,
        Condition::AnyOf(vec![vec![ColumnIn { column: Column::Id, values: vec![id(R2)] }]])
    );
    assert!(!passes(&condition, &row(T1, R1)));
    assert!(passes(&condition, &row(T3, R2)));
}

#[test]
fn filter_without_values_drops_its_constraint() {
    let scope = AccessScope::from_constraints(vec![
        ScopeConstraint::new(vec![filter("owner_tenant_id", &[]), filter("id", &[R1])]),
        ScopeConstraint::new(vec![filter("owner_tenant_id", &[T2])]),
    ]);
    let condition = build_scope_condition(&scope, &user_columns());
    assert_eq!(
        condition,
        Condition::AnyOf(vec![vec![ColumnIn { column: Column::TenantId, values: vec![id(T2)] }]])
    );

    let only_empty = AccessScope::for_tenants(vec![]);
    assert_eq!(build_scope_condition(&only_empty, &user_columns()), Condition::False);
}

#[test]
fn constraint_without_filters_lets_every_row_pass() {
    let scope = AccessScope::single(ScopeConstraint::new(vec![]));
    let condition = build_scope_condition(&scope, &user_columns());
    assert_eq!(condition, Condition::AnyOf(vec![vec![]]));
    for r in sample_rows() {
        assert!(passes(&condition, &r));
    }
}

#[test]
fn resolve_property_takes_the_first_pair() {
    let columns = PropertyColumns::new(vec![
        ("owner_id".to_owned(), Column::OwnerId),
        ("id".to_owned(), Column::Id),
        ("owner_id".to_owned(), Column::TenantId),
    ]);
    assert_eq!(columns.resolve_property("owner_id"), Some(Column::OwnerId));
    assert_eq!(columns.resolve_property("id"), Some(Column::Id));
    assert_eq!(columns.resolve_property("owner_tenant_id"), None);
    assert_eq!(columns.resolve_property(""), None);
    assert_eq!(PropertyColumns::<Column>::new(vec![]).resolve_property("id"), None);
}
