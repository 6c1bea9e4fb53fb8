use authz_core::access_scope::AccessScope;
use authz_core::constraints::{Constraint, EqPredicate, InPredicate, Predicate};
use authz_core::models::EvaluationResponse;
use authz_core::pep::compiler::{compile_to_access_scope, ConstraintCompileError};
use authz_core::Uuid;

fn uuid(s: &str) -> Uuid {
    Uuid::from_u128(uuid::Uuid::parse_str(s).unwrap().as_u128())
}

const T1: &str = "11111111-1111-1111-1111-111111111111";
const T2: &str = "22222222-2222-2222-2222-222222222222";
const R1: &str = "aaaaaaaa-aaaa-aaaa-aaaa-aaaaaaaaaaaa";

const SUPPORTED: &[&str] = &["owner_tenant_id", "id"];

fn eq(property: &str, value: &str) -> Predicate {
    Predicate::Eq(EqPredicate {
        property: property.to_owned(),
        value: uuid(value),
    })
}

fn within(property: &str, values: &[&str]) -> Predicate {
    Predicate::In(InPredicate {
        property: property.to_owned(),
        values: values.iter().map(|v| uuid(v)).collect(),
    })
}

fn grant(constraints: Vec<Vec<Predicate>>) -> EvaluationResponse {
    EvaluationResponse {
        decision: true,
        constraints: constraints
            .into_iter()
            .map(|predicates| Constraint { predicates })
            .collect(),
        deny_reason: None,
    }
}

// === Decision matrix ===

#[test]
fn decision_false_returns_denied() {
    let response = EvaluationResponse {
        decision: false,
        constraints: vec![],
        deny_reason: None,
    };

    let result = compile_to_access_scope(&response, true, SUPPORTED);
    assert!(matches!(result, Err(ConstraintCompileError::Denied)));
}

#[test]
fn decision_true_no_require_constraints_returns_allow_all() {
    let response = EvaluationResponse {
        decision: true,
        constraints: vec![],
        deny_reason: None,
    };

    let scope = compile_to_access_scope(&response, false, SUPPORTED).unwrap();
    assert!(scope.is_unconstrained());
}

#[test]
fn decision_true_require_constraints_empty_returns_allow_all() {
    let response = EvaluationResponse {
        decision: true,
        constraints: vec![],
        deny_reason: None,
    };

    let scope = compile_to_access_scope(&response, true, SUPPORTED).unwrap();
    assert!(scope.is_unconstrained());
}

// === Constraint compilation ===

#[test]
fn single_tenant_eq_constraint() {
    let response = EvaluationResponse {
        decision: true,
        constraints: vec![Constraint {
            predicates: vec![Predicate::Eq(EqPredicate {
                property: "owner_tenant_id".to_owned(),
                value: uuid(T1),
            })],
        }],
        deny_reason: None,
    };

    let scope = compile_to_access_scope(&response, true, SUPPORTED).unwrap();
    assert_eq!(scope.all_values_for("owner_tenant_id"), &[uuid(T1)]);
    assert!(scope.all_values_for("id").is_empty());
}

#[test]
fn multiple_tenants_in_constraint() {
    let response = EvaluationResponse {
        decision: true,
        constraints: vec![Constraint {
            predicates: vec![Predicate::In(InPredicate {
                property: "owner_tenant_id".to_owned(),
                values: vec![uuid(T1), uuid(T2)],
            })],
        }],
        deny_reason: None,
    };

    let scope = compile_to_access_scope(&response, true, SUPPORTED).unwrap();
    assert_eq!(scope.all_values_for("owner_tenant_id"), &[uuid(T1), uuid(T2)]);
}

#[test]
fn resource_id_eq_constraint() {
    let response = EvaluationResponse {
        decision: true,
        constraints: vec![Constraint {
            predicates: vec![Predicate::Eq(EqPredicate {
                property: "id".to_owned(),
                value: uuid(R1),
            })],
        }],
        deny_reason: None,
    };

    let scope = compile_to_access_scope(&response, true, SUPPORTED).unwrap();
    assert!(scope.all_values_for("owner_tenant_id").is_empty());
    assert_eq!(scope.all_values_for("id"), &[uuid(R1)]);
}

#[test]
fn multiple_constraints_ored() {
    let response = EvaluationResponse {
        decision: true,
        constraints: vec![
            Constraint {
                predicates: vec![Predicate::In(InPredicate {
                    property: "owner_tenant_id".to_owned(),
                    values: vec![uuid(T1)],
                })],
            },
            Constraint {
                predicates: vec![Predicate::In(InPredicate {
                    property: "owner_tenant_id".to_owned(),
                    values: vec![uuid(T2)],
                })],
            },
        ],
        deny_reason: None,
    };

    let scope = compile_to_access_scope(&response, true, SUPPORTED).unwrap();
    // The values of both constraints are there.
    assert_eq!(scope.all_values_for("owner_tenant_id"), &[uuid(T1), uuid(T2)]);
}

#[test]
fn unknown_predicate_fails_constraint() {
    let response = EvaluationResponse {
        decision: true,
        constraints: vec![Constraint {
            predicates: vec![Predicate::Eq(EqPredicate {
                property: "unknown_property".to_owned(),
                value: uuid(T1),
            })],
        }],
        deny_reason: None,
    };

    let result = compile_to_access_scope(&response, true, SUPPORTED);
    assert!(matches!(
        result,
        Err(ConstraintCompileError::AllConstraintsFailed { .. })
    ));
}

#[test]
fn mixed_known_and_unknown_constraints() {
    let response = EvaluationResponse {
        decision: true,
        constraints: vec![
            // A predicate on an unknown property: this constraint fails.
            Constraint {
                predicates: vec![Predicate::Eq(EqPredicate {
                    property: "group_id".to_owned(),
                    value: uuid(T1),
                })],
            },
            // This constraint compiles.
            Constraint {
                predicates: vec![Predicate::In(InPredicate {
                    property: "owner_tenant_id".to_owned(),
                    values: vec![uuid(T2)],
                })],
            },
        ],
        deny_reason: None,
    };

    let scope = compile_to_access_scope(&response, true, SUPPORTED).unwrap();
    assert_eq!(scope.all_values_for("owner_tenant_id"), &[uuid(T2)]);
}

#[test]
fn both_tenant_and_resource_ids() {
    let response = EvaluationResponse {
        decision: true,
        constraints: vec![Constraint {
            predicates: vec![
                Predicate::In(InPredicate {
                    property: "owner_tenant_id".to_owned(),
                    values: vec![uuid(T1)],
                }),
                Predicate::Eq(EqPredicate {
                    property: "id".to_owned(),
                    value: uuid(R1),
                }),
            ],
        }],
        deny_reason: None,
    };

    let scope = compile_to_access_scope(&response, true, SUPPORTED).unwrap();
    assert_eq!(scope.all_values_for("owner_tenant_id"), &[uuid(T1)]);
    assert_eq!(scope.all_values_for("id"), &[uuid(R1)]);
}

// === Beyond the matrix ===

#[test]
fn denial_wins_over_constraints_and_flag() {
    let response = EvaluationResponse {
        decision: false,
        constraints: vec![Constraint {
            predicates: vec![within("owner_tenant_id", &[T1])],
        }],
        deny_reason: Some("policy says no".to_owned()),
    };
    assert_eq!(
        compile_to_access_scope(&response, true, SUPPORTED),
        Err(ConstraintCompileError::Denied)
    );
    assert_eq!(
        compile_to_access_scope(&response, false, SUPPORTED),
        Err(ConstraintCompileError::Denied)
    );
}

#[test]
fn grant_without_required_constraints_is_allow_all_whatever_came() {
    let plain = grant(vec![vec![within("owner_tenant_id", &[T1])]]);
    assert_eq!(
        compile_to_access_scope(&plain, false, SUPPORTED),
        Ok(AccessScope::allow_all())
    );
    let unknown = grant(vec![vec![eq("group_id", T1)]]);
    assert_eq!(
        compile_to_access_scope(&unknown, false, SUPPORTED),
        Ok(AccessScope::allow_all())
    );
    assert_eq!(
        compile_to_access_scope(&unknown, false, &[]),
        Ok(AccessScope::allow_all())
    );
}

#[test]
fn compiled_scope_keeps_one_constraint_per_surviving_constraint() {
    let response = grant(vec![
        vec![within("owner_tenant_id", &[T1])],
        vec![eq("group_id", T1)],
        vec![within("owner_tenant_id", &[T2]), eq("id", R1)],
    ]);
    let scope = compile_to_access_scope(&response, true, SUPPORTED).unwrap();
    assert!(!scope.is_unconstrained());
    assert!(!scope.is_deny_all());
    assert_eq!(scope, AccessScope::from_constraints(vec![
        authz_core::ScopeConstraint::new(vec![authz_core::ScopeFilter::new(
            "owner_tenant_id",
            authz_core::FilterOp::In,
            vec![uuid(T1)],
        )]),
        authz_core::ScopeConstraint::new(vec![
            authz_core::ScopeFilter::new(
                "owner_tenant_id",
                authz_core::FilterOp::In,
                vec![uuid(T2)],
            ),
            authz_core::ScopeFilter::new("id", authz_core::FilterOp::In, vec![uuid(R1)]),
        ]),
    ]));
}

#[test]
fn predicates_on_one_property_merge_into_one_filter() {
    let response = grant(vec![vec![
        eq("owner_tenant_id", T1),
        eq("id", R1),
        within("owner_tenant_id", &[T2, T1]),
    ]]);
    let scope = compile_to_access_scope(&response, true, SUPPORTED).unwrap();
    assert_eq!(scope.constraints().len(), 1);
    let filters = scope.constraints()[0].filters();
    assert_eq!(filters.len(), 2);
    assert_eq!(filters[0].property(), "owner_tenant_id");
    assert_eq!(filters[0].values(), &[uuid(T1), uuid(T2), uuid(T1)]);
    assert_eq!(filters[1].property(), "id");
    assert_eq!(filters[1].values(), &[uuid(R1)]);
}

#[test]
fn one_unknown_predicate_drops_the_whole_constraint() {
    let response = grant(vec![
        vec![within("owner_tenant_id", &[T1]), eq("group_id", T2)],
        vec![eq("id", R1)],
    ]);
    let scope = compile_to_access_scope(&response, true, SUPPORTED).unwrap();
    assert_eq!(scope.constraints().len(), 1);
    assert!(scope.all_values_for("owner_tenant_id").is_empty());
    assert_eq!(scope.all_values_for("id"), &[uuid(R1)]);
}

#[test]
fn all_constraints_failed_names_the_reasons() {
    let response = grant(vec![
        vec![eq("group_id", T1)],
        vec![within("owner_tenant_id", &[T1]), within("region", &[T2]), eq("zone", T2)],
    ]);
    let result = compile_to_access_scope(&response, true, SUPPORTED);
    assert_eq!(
        result,
        Err(ConstraintCompileError::AllConstraintsFailed {
            reason: "unsupported property: group_id; unsupported property: region".to_owned(),
        })
    );
}

#[test]
fn nothing_supported_fails_every_constraint() {
    let response = grant(vec![vec![within("owner_tenant_id", &[T1])]]);
    let result = compile_to_access_scope(&response, true, &[]);
    assert_eq!(
        result,
        Err(ConstraintCompileError::AllConstraintsFailed {
            reason: "unsupported property: owner_tenant_id".to_owned(),
        })
    );
}

#[test]
fn supporting_more_properties_keeps_what_was_there() {
    let response = grant(vec![
        vec![within("owner_tenant_id", &[T1])],
        vec![eq("group_id", T2)],
    ]);
    let narrow = compile_to_access_scope(&response, true, &["owner_tenant_id"]).unwrap();
    let wide = compile_to_access_scope(&response, true, &["owner_tenant_id", "group_id"]).unwrap();
    assert_eq!(narrow.constraints().len(), 1);
    assert_eq!(wide.constraints().len(), 2);
    assert_eq!(wide.constraints()[0], narrow.constraints()[0]);
    assert!(wide.contains_value("group_id", uuid(T2)));
}

#[test]
fn a_constraint_without_predicates_compiles_to_an_empty_path() {
    let response = grant(vec![vec![]]);
    let scope = compile_to_access_scope(&response, true, SUPPORTED).unwrap();
    assert!(!scope.is_unconstrained());
    assert_eq!(scope.constraints().len(), 1);
    assert!(scope.constraints()[0].is_empty());
}

#[test]
fn error_messages() {
    assert_eq!(ConstraintCompileError::Denied.to_string(), "access denied by PDP");
    assert_eq!(
        ConstraintCompileError::AllConstraintsFailed {
            reason: "unsupported property: x".to_owned()
        }
        .to_string(),
        "all constraints failed compilation (fail-closed): unsupported property: x"
    );
}

#[test]
fn a_predicate_without_values_fails_its_constraint() {
    let response = grant(vec![vec![within("owner_tenant_id", &[])]]);
    assert_eq!(
        compile_to_access_scope(&response, true, SUPPORTED),
        Err(ConstraintCompileError::AllConstraintsFailed {
            reason: "no values for property: owner_tenant_id".to_owned(),
        })
    );
}

#[test]
fn a_constraint_without_values_is_dropped_beside_one_with_values() {
    let response = grant(vec![
        vec![within("owner_tenant_id", &[T1]), within("id", &[])],
        vec![within("owner_tenant_id", &[T2])],
    ]);
    let scope = compile_to_access_scope(&response, true, SUPPORTED).unwrap();
    assert_eq!(scope, AccessScope::for_tenant(uuid(T2)));
}

#[test]
fn values_of_another_predicate_on_the_property_keep_the_constraint() {
    let response = grant(vec![vec![
        within("owner_tenant_id", &[]),
        eq("owner_tenant_id", T1),
        within("owner_tenant_id", &[]),
    ]]);
    let scope = compile_to_access_scope(&response, true, SUPPORTED).unwrap();
    assert_eq!(scope, AccessScope::for_tenant(uuid(T1)));
}

#[test]
fn an_unsupported_property_is_named_before_one_without_values() {
    let response = grant(vec![
        vec![within("id", &[]), eq("group_id", T1)],
        vec![within("id", &[])],
    ]);
    assert_eq!(
        compile_to_access_scope(&response, true, SUPPORTED),
        Err(ConstraintCompileError::AllConstraintsFailed {
            reason: "unsupported property: group_id; no values for property: id".to_owned(),
        })
    );
}

#[test]
fn every_filter_of_a_compiled_scope_carries_a_value() {
    let responses = vec![
        grant(vec![vec![within("owner_tenant_id", &[T1])], vec![within("id", &[])]]),
        grant(vec![vec![eq("id", R1), within("owner_tenant_id", &[])], vec![eq("id", R1)]]),
        grant(vec![vec![], vec![within("id", &[])]]),
    ];
    for response in responses {
        let scope = compile_to_access_scope(&response, true, SUPPORTED).unwrap();
        assert!(!scope.is_unconstrained());
        for constraint in scope.constraints() {
            for filter in constraint.filters() {
                assert_eq!(*filter.op(), authz_core::FilterOp::In);
                assert!(!filter.values().is_empty());
            }
        }
    }
}
