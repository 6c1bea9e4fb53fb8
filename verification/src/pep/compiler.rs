//! The constraint compiler: from a decision point's answer to an access
//! scope, or to a typed refusal. Anything that the caller cannot compile
//! narrows access and never widens it.
//!
//! | decision | constraints required | constraints | result                |
//! |----------|----------------------|-------------|-----------------------|
//! | false    | any                  | any         | `Denied`              |
//! | true     | no                   | any         | allow-all             |
//! | true     | yes                  | none        | allow-all             |
//! | true     | yes                  | some        | each constraint is compiled |

use vstd::prelude::*;

use crate::access_scope::{
    constraint_matches, constraint_views, filter_views, no_empty_filter, scope_admits,
    PropertyRow, AccessScope, AccessScopeView, FilterOp, ScopeConstraint,
    ScopeFilter, ScopeFilterView,
};
use crate::constraints::{Constraint, Predicate};
use crate::id::{copy_ids, extend_ids, Uuid};
use crate::models::EvaluationResponse;
use crate::sequences::{lemma_filter_map_keeps, lemma_filter_map_source};
use crate::text::{concat, join, joined, name_texts, str_eq, texts};

verus! {

// ── What is compiled ────────────────────────────────────────────────

/// The property names that a list of names holds.
pub open spec fn supported_set(names: Seq<&str>) -> Set<Seq<char>> {
    name_texts(names).to_set()
}

/// The property of the first predicate that is on a property outside
/// `supported`, if there is such a predicate.
pub open spec fn first_unsupported(predicates: Seq<Predicate>, supported: Set<Seq<char>>) -> Option<
    Seq<char>,
>
    decreases predicates.len(),
{
    if predicates.len() == 0 {
        None
    } else if !supported.contains(predicates[0].spec_property()) {
        Some(predicates[0].spec_property())
    } else {
        first_unsupported(predicates.skip(1), supported)
    }
}

/// The properties that the predicates are on, each once, in the order in
/// which they first occur.
pub open spec fn distinct_properties(predicates: Seq<Predicate>) -> Seq<Seq<char>>
    decreases predicates.len(),
{
    if predicates.len() == 0 {
        Seq::empty()
    } else {
        let earlier = distinct_properties(predicates.drop_last());
        let property = predicates.last().spec_property();
        if earlier.contains(property) {
            earlier
        } else {
            earlier.push(property)
        }
    }
}

/// The values of all predicates on `property`, in order.
pub open spec fn values_on(predicates: Seq<Predicate>, property: Seq<char>) -> Seq<Uuid>
    decreases predicates.len(),
{
    if predicates.len() == 0 {
        Seq::empty()
    } else {
        values_on(predicates.drop_last(), property) + (if predicates.last().spec_property()
            == property {
            predicates.last().spec_values()
        } else {
            Seq::empty()
        })
    }
}

/// The filters that a constraint compiles to: one `In` filter for each
/// property that its predicates are on, with the values of all predicates
/// on that property.
pub open spec fn merged_filters(predicates: Seq<Predicate>) -> Seq<ScopeFilterView> {
    distinct_properties(predicates).map_values(
        |property: Seq<char>|
            ScopeFilterView {
                property,
                op: FilterOp::In,
                values: values_on(predicates, property),
            },
    )
}

/// The property of the first filter that carries no value, if there is
/// such a filter.
pub open spec fn first_valueless(filters: Seq<ScopeFilterView>) -> Option<Seq<char>>
    decreases filters.len(),
{
    if filters.len() == 0 {
        None
    } else if filters[0].values.len() == 0 {
        Some(filters[0].property)
    } else {
        first_valueless(filters.skip(1))
    }
}

/// Why a constraint with a predicate on the unsupported `property` failed.
pub open spec fn failure_reason(property: Seq<char>) -> Seq<char> {
    "unsupported property: "@ + property
}

/// Why a constraint whose predicates on `property` list no value failed.
pub open spec fn valueless_reason(property: Seq<char>) -> Seq<char> {
    "no values for property: "@ + property
}

/// Why one constraint failed, if it did: it has a predicate on an
/// unsupported property, or else its predicates on some property list no
/// value, so that the filter on that property would let no row pass.
pub open spec fn constraint_failure(constraint: Constraint, supported: Set<Seq<char>>) -> Option<
    Seq<char>,
> {
    match first_unsupported(constraint.predicates@, supported) {
        Some(property) => Some(failure_reason(property)),
        None => match first_valueless(merged_filters(constraint.predicates@)) {
            Some(property) => Some(valueless_reason(property)),
            None => None,
        },
    }
}

/// What one constraint compiles to: its filters, if every predicate is on a
/// supported property and every filter carries a value.
pub open spec fn compiled_constraint(constraint: Constraint, supported: Set<Seq<char>>) -> Option<
    Seq<ScopeFilterView>,
> {
    if constraint_failure(constraint, supported) is None {
        Some(merged_filters(constraint.predicates@))
    } else {
        None
    }
}

/// The constraints that compile, compiled, in order.
pub open spec fn survivors(constraints: Seq<Constraint>, supported: Set<Seq<char>>) -> Seq<
    Seq<ScopeFilterView>,
> {
    constraints.filter_map(|c: Constraint| compiled_constraint(c, supported))
}

/// The reasons of the constraints that fail, in order.
pub open spec fn failures(constraints: Seq<Constraint>, supported: Set<Seq<char>>) -> Seq<
    Seq<char>,
> {
    constraints.filter_map(|c: Constraint| constraint_failure(c, supported))
}

/// How a compilation ends.
pub enum Compiled {
    /// With this scope.
    Scope(AccessScopeView),
    /// The decision point said no.
    Denied,
    /// The decision point said yes, and no constraint could be compiled;
    /// the text holds the reasons.
    AllConstraintsFailed(Seq<char>),
}

/// The decision matrix.
pub open spec fn compiled(
    response: EvaluationResponse,
    require_constraints: bool,
    supported: Set<Seq<char>>,
) -> Compiled {
    if !response.decision {
        Compiled::Denied
    } else if !require_constraints || response.constraints@.len() == 0 {
        Compiled::Scope(AccessScopeView::allow_all())
    } else if survivors(response.constraints@, supported).len() == 0 {
        Compiled::AllConstraintsFailed(joined(failures(response.constraints@, supported), "; "@))
    } else {
        Compiled::Scope(AccessScopeView::constrained(survivors(response.constraints@, supported)))
    }
}

// ── How it can fail ─────────────────────────────────────────────────

/// Why no access scope could be had from an answer.
#[derive(Clone, Debug, PartialEq, Eq)]
pub enum ConstraintCompileError {
    /// The decision point denied access.
    Denied,
    /// The decision point granted access, and no constraint could be
    /// compiled: each held a predicate on a property that the caller does
    /// not support, or listed no value for some property. The caller treats
    /// this as a denial; `reason` is for diagnostics only.
    AllConstraintsFailed { reason: String },
}

impl ConstraintCompileError {
    /// The message of the error.
    pub open spec fn spec_message(self) -> Seq<char> {
        match self {
            ConstraintCompileError::Denied => "access denied by PDP"@,
            ConstraintCompileError::AllConstraintsFailed { reason } =>
                "all constraints failed compilation (fail-closed): "@ + reason@,
        }
    }

    /// The message of the error.
    pub fn to_string(&self) -> (message: String)
        ensures
            message@ == self.spec_message(),
    {
        match self {
            ConstraintCompileError::Denied => "access denied by PDP".to_owned(),
            ConstraintCompileError::AllConstraintsFailed { reason } => concat(
                "all constraints failed compilation (fail-closed): ",
                reason.as_str(),
            ),
        }
    }
}

/// How a result of the compiler reads as an end of a compilation.
pub open spec fn outcome(result: Result<AccessScope, ConstraintCompileError>) -> Compiled {
    match result {
        Ok(scope) => Compiled::Scope(scope@),
        Err(ConstraintCompileError::Denied) => Compiled::Denied,
        Err(ConstraintCompileError::AllConstraintsFailed { reason }) =>
            Compiled::AllConstraintsFailed(reason@),
    }
}

// ── Facts about what is compiled ────────────────────────────────────

/// A property is among the distinct properties exactly if some predicate is
/// on it.
pub proof fn lemma_distinct_properties_contains(predicates: Seq<Predicate>, property: Seq<char>)
    ensures
        distinct_properties(predicates).contains(property) <==> exists|j: int|
            0 <= j < predicates.len() && (#[trigger] predicates[j]).spec_property() == property,
    decreases predicates.len(),
{
    if predicates.len() > 0 {
        let rest = predicates.drop_last();
        let earlier = distinct_properties(rest);
        let last = predicates.last().spec_property();
        lemma_distinct_properties_contains(rest, property);
        if distinct_properties(predicates).contains(property) {
            if earlier.contains(property) {
                let j = choose|j: int|
                    0 <= j < rest.len() && (#[trigger] rest[j]).spec_property() == property;
                assert(predicates[j].spec_property() == property);
            } else {
                assert(!earlier.contains(last));
                let k = choose|k: int|
                    0 <= k < earlier.push(last).len() && earlier.push(last)[k] == property;
                if k < earlier.len() {
                    assert(earlier[k] == property);
                }
                assert(predicates[predicates.len() - 1].spec_property() == property);
            }
        }
        if exists|j: int|
            0 <= j < predicates.len() && (#[trigger] predicates[j]).spec_property() == property {
            let j = choose|j: int|
                0 <= j < predicates.len() && (#[trigger] predicates[j]).spec_property()
                    == property;
            if j < rest.len() {
                assert(rest[j].spec_property() == property);
                assert(earlier.contains(property));
                if !earlier.contains(last) {
                    let k = choose|k: int| 0 <= k < earlier.len() && earlier[k] == property;
                    assert(earlier.push(last)[k] == property);
                }
            } else {
                if !earlier.contains(last) {
                    assert(earlier.push(last)[earlier.len() as int] == property);
                }
            }
        }
    }
}

/// No property occurs twice among the distinct properties.
pub proof fn lemma_distinct_properties_no_duplicates(predicates: Seq<Predicate>)
    ensures
        distinct_properties(predicates).no_duplicates(),
    decreases predicates.len(),
{
    if predicates.len() > 0 {
        lemma_distinct_properties_no_duplicates(predicates.drop_last());
    }
}

/// A property that no predicate is on has no values.
pub proof fn lemma_values_on_absent(predicates: Seq<Predicate>, property: Seq<char>)
    requires
        !distinct_properties(predicates).contains(property),
    ensures
        values_on(predicates, property) == Seq::<Uuid>::empty(),
    decreases predicates.len(),
{
    if predicates.len() > 0 {
        let rest = predicates.drop_last();
        let earlier = distinct_properties(rest);
        let last = predicates.last().spec_property();
        if earlier.contains(last) {
            lemma_values_on_absent(rest, property);
        } else {
            assert(earlier.push(last)[earlier.len() as int] == last);
            if earlier.contains(property) {
                let k = choose|k: int| 0 <= k < earlier.len() && earlier[k] == property;
                assert(earlier.push(last)[k] == property);
            }
            lemma_values_on_absent(rest, property);
        }
    }
}

/// Every predicate is on a supported property exactly if there is no first
/// unsupported one.
pub proof fn lemma_first_unsupported_none(predicates: Seq<Predicate>, supported: Set<Seq<char>>)
    ensures
        first_unsupported(predicates, supported) is None <==> forall|j: int|
            0 <= j < predicates.len() ==> supported.contains(
                (#[trigger] predicates[j]).spec_property(),
            ),
    decreases predicates.len(),
{
    if predicates.len() > 0 {
        let rest = predicates.skip(1);
        lemma_first_unsupported_none(rest, supported);
        if first_unsupported(predicates, supported) is None {
            assert forall|j: int| 0 <= j < predicates.len() implies supported.contains(
                (#[trigger] predicates[j]).spec_property(),
            ) by {
                if j > 0 {
                    assert(rest[j - 1] == predicates[j]);
                }
            }
        }
        if forall|j: int|
            0 <= j < predicates.len() ==> supported.contains(
                (#[trigger] predicates[j]).spec_property(),
            ) {
            assert(supported.contains(predicates[0].spec_property()));
            assert forall|j: int| 0 <= j < rest.len() implies supported.contains(
                (#[trigger] rest[j]).spec_property(),
            ) by {
                assert(rest[j] == predicates[j + 1]);
            }
        }
    }
}

/// Every filter carries a value exactly if there is no first one without.
pub proof fn lemma_first_valueless_none(filters: Seq<ScopeFilterView>)
    ensures
        first_valueless(filters) is None <==> forall|k: int|
            0 <= k < filters.len() ==> (#[trigger] filters[k]).values.len() > 0,
    decreases filters.len(),
{
    if filters.len() > 0 {
        let rest = filters.skip(1);
        lemma_first_valueless_none(rest);
        if first_valueless(filters) is None {
            assert forall|k: int| 0 <= k < filters.len() implies (#[trigger] filters[k]).values.len()
                > 0 by {
                if k > 0 {
                    assert(rest[k - 1] == filters[k]);
                }
            }
        }
        if forall|k: int| 0 <= k < filters.len() ==> (#[trigger] filters[k]).values.len() > 0 {
            assert(filters[0].values.len() > 0);
            assert forall|k: int| 0 <= k < rest.len() implies (#[trigger] rest[k]).values.len()
                > 0 by {
                assert(rest[k] == filters[k + 1]);
            }
        }
    }
}

// ── The compiler ────────────────────────────────────────────────────

/// Whether `property` is one of `supported`.
fn is_supported(property: &str, supported: &[&str]) -> (found: bool)
    ensures
        found == supported_set(supported@).contains(property@),
{
    let mut k: usize = 0;
    while k < supported.len()
        invariant
            k <= supported.len(),
            forall|m: int| 0 <= m < k ==> (#[trigger] supported@[m])@ != property@,
        decreases supported.len() - k,
    {
        if str_eq(supported[k], property) {
            assert(name_texts(supported@)[k as int] == property@);
            return true;
        }
        k += 1;
    }
    proof {
        if name_texts(supported@).contains(property@) {
            let m = choose|m: int|
                0 <= m < name_texts(supported@).len() && name_texts(supported@)[m] == property@;
            assert(supported@[m]@ == property@);
        }
    }
    false
}

/// The index of `property` among `names`.
fn position(names: &Vec<String>, property: &str) -> (found: Option<usize>)
    ensures
        match found {
            Some(k) => k < names@.len() && texts(names@)[k as int] == property@,
            None => !texts(names@).contains(property@),
        },
{
    let mut k: usize = 0;
    while k < names.len()
        invariant
            k <= names.len(),
            forall|m: int| 0 <= m < k ==> (#[trigger] texts(names@)[m]) != property@,
        decreases names.len() - k,
    {
        if str_eq(names[k].as_str(), property) {
            return Some(k);
        }
        k += 1;
    }
    None
}

/// Compiles one constraint: a filter for each property, or the reason why
/// the constraint cannot be compiled.
fn compile_constraint(constraint: &Constraint, supported: &[&str]) -> (result: Result<
    ScopeConstraint,
    String,
>)
    ensures
        match result {
            Ok(compiled) => compiled_constraint(*constraint, supported_set(supported@)) == Some(
                compiled@,
            ),
            Err(reason) => constraint_failure(*constraint, supported_set(supported@)) == Some(
                reason@,
            ),
        },
{
    let ghost predicates = constraint.predicates@;
    let ghost allowed = supported_set(supported@);
    let mut names: Vec<String> = Vec::new();
    let mut groups: Vec<Vec<Uuid>> = Vec::new();
    let mut i: usize = 0;
    proof {
        assert(predicates.skip(0) == predicates);
    }
    while i < constraint.predicates.len()
        invariant
            predicates == constraint.predicates@,
            allowed == supported_set(supported@),
            i <= predicates.len(),
            first_unsupported(predicates, allowed) == first_unsupported(
                predicates.skip(i as int),
                allowed,
            ),
            texts(names@) == distinct_properties(predicates.take(i as int)),
            groups@.len() == names@.len(),
            forall|k: int|
                0 <= k < names@.len() ==> (#[trigger] groups@[k])@ == values_on(
                    predicates.take(i as int),
                    names@[k]@,
                ),
        decreases predicates.len() - i,
    {
        let predicate = &constraint.predicates[i];
        let property = predicate.property();
        proof {
            assert(predicates.skip(i as int)[0] == predicates[i as int]);
            assert(predicates.skip(i as int).skip(1) == predicates.skip(i + 1));
            assert(predicates.take(i + 1).drop_last() == predicates.take(i as int));
            assert(predicates.take(i + 1).last() == predicates[i as int]);
        }
        if !is_supported(property, supported) {
            return Err(concat("unsupported property: ", property));
        }
        let ghost before_names = names@;
        let ghost before_groups = groups@;
        proof {
            lemma_distinct_properties_no_duplicates(predicates.take(i as int));
        }
        match position(&names, property) {
            Some(k) => {
                let mut merged = copy_ids(groups[k].as_slice());
                match predicate {
                    Predicate::Eq(eq) => {
                        merged.push(eq.value);
                    },
                    Predicate::In(within) => {
                        extend_ids(&mut merged, within.values.as_slice());
                    },
                }
                assert(merged@ == before_groups[k as int]@ + predicate.spec_values());
                groups[k] = merged;
                proof {
                    assert forall|m: int| 0 <= m < names@.len() implies (#[trigger] groups@[m])@
                        == values_on(predicates.take(i + 1), names@[m]@) by {
                        if m != k {
                            assert(groups@[m] == before_groups[m]);
                            assert(texts(names@)[m] != texts(names@)[k as int]);
                        }
                    }
                }
            },
            None => {
                let values = match predicate {
                    Predicate::Eq(eq) => {
                        let mut one: Vec<Uuid> = Vec::new();
                        one.push(eq.value);
                        one
                    },
                    Predicate::In(within) => copy_ids(within.values.as_slice()),
                };
                assert(values@ == predicate.spec_values());
                names.push(property.to_owned());
                groups.push(values);
                proof {
                    lemma_values_on_absent(predicates.take(i as int), property@);
                    assert(texts(names@) =~= texts(before_names).push(property@));
                    assert forall|m: int| 0 <= m < names@.len() implies (#[trigger] groups@[m])@
                        == values_on(predicates.take(i + 1), names@[m]@) by {
                        if m < before_names.len() {
                            assert(groups@[m] == before_groups[m]);
                            assert(names@[m] == before_names[m]);
                            assert(texts(before_names)[m] != property@);
                        }
                    }
                }
            },
        }
        i += 1;
    }
    proof {
        assert(predicates.take(predicates.len() as int) == predicates);
    }
    let ghost merged = merged_filters(predicates);
    let mut filters: Vec<ScopeFilter> = Vec::new();
    let mut k: usize = 0;
    proof {
        assert(merged.skip(0) == merged);
    }
    while k < names.len()
        invariant
            predicates == constraint.predicates@,
            allowed == supported_set(supported@),
            merged == merged_filters(predicates),
            first_unsupported(predicates, allowed) is None,
            k <= names@.len(),
            groups@.len() == names@.len(),
            texts(names@) == distinct_properties(predicates),
            forall|m: int|
                0 <= m < names@.len() ==> (#[trigger] groups@[m])@ == values_on(
                    predicates,
                    names@[m]@,
                ),
            filter_views(filters@) == merged.take(k as int),
            first_valueless(merged) == first_valueless(merged.skip(k as int)),
        decreases names@.len() - k,
    {
        proof {
            assert(texts(names@)[k as int] == names@[k as int]@);
            assert(merged.skip(k as int)[0] == merged[k as int]);
            assert(merged.skip(k as int).skip(1) == merged.skip(k + 1));
            assert(merged[k as int].property == names@[k as int]@);
            assert(merged[k as int].values == groups@[k as int]@);
        }
        if groups[k].is_empty() {
            return Err(concat("no values for property: ", names[k].as_str()));
        }
        let ghost before = filters@;
        filters.push(
            ScopeFilter::new(names[k].as_str(), FilterOp::In, copy_ids(groups[k].as_slice())),
        );
        proof {
            assert(filter_views(filters@) =~= filter_views(before).push(merged[k as int]));
            assert(merged.take(k + 1) =~= merged.take(k as int).push(merged[k as int]));
        }
        k += 1;
    }
    proof {
        assert(merged.take(names@.len() as int) == merged);
        assert(merged.skip(names@.len() as int).len() == 0);
    }
    Ok(ScopeConstraint::new(filters))
}

/// Compiles the answer of a decision point into an access scope.
///
/// A denial gives `Denied`. A grant gives allow-all where constraints were
/// not required, or none came. Otherwise each constraint is compiled: its
/// predicates are merged by property into `In` filters, and a constraint
/// is dropped if it has a predicate on a property outside
/// `supported_properties`, or if its predicates on some property list no
/// value. The scope holds the constraints that are left, in order; if none is
/// left, the result is `AllConstraintsFailed`, with the reasons of the
/// dropped constraints joined by `"; "`.
pub fn compile_to_access_scope(
    response: &EvaluationResponse,
    require_constraints: bool,
    supported_properties: &[&str],
) -> (result: Result<AccessScope, ConstraintCompileError>)
    ensures
        outcome(result) == compiled(
            *response,
            require_constraints,
            supported_set(supported_properties@),
        ),
        !response.decision ==> result == Err::<AccessScope, ConstraintCompileError>(
            ConstraintCompileError::Denied,
        ),
        response.decision && !require_constraints ==> outcome(result) == Compiled::Scope(
            AccessScopeView::allow_all(),
        ),
        result is Ok ==> (result->Ok_0@.unconstrained ==> result->Ok_0@.constraints.len() == 0),
        result is Ok ==> no_empty_filter(result->Ok_0@),
{
    if !response.decision {
        return Err(ConstraintCompileError::Denied);
    }
    if !require_constraints {
        return Ok(AccessScope::allow_all());
    }
    if response.constraints.is_empty() {
        return Ok(AccessScope::allow_all());
    }
    let ghost constraints = response.constraints@;
    let ghost allowed = supported_set(supported_properties@);
    let mut compiled_constraints: Vec<ScopeConstraint> = Vec::new();
    let mut fail_reasons: Vec<String> = Vec::new();
    let mut i: usize = 0;
    while i < response.constraints.len()
        invariant
            constraints == response.constraints@,
            allowed == supported_set(supported_properties@),
            i <= constraints.len(),
            constraint_views(compiled_constraints@) == survivors(constraints.take(i as int), allowed),
            texts(fail_reasons@) == failures(constraints.take(i as int), allowed),
        decreases constraints.len() - i,
    {
        proof {
            constraints.lemma_filter_map_take_succ(
                |c: Constraint| compiled_constraint(c, allowed),
                i as int,
            );
            constraints.lemma_filter_map_take_succ(
                |c: Constraint| constraint_failure(c, allowed),
                i as int,
            );
        }
        let ghost before_compiled = compiled_constraints@;
        let ghost before_reasons = fail_reasons@;
        match compile_constraint(&response.constraints[i], supported_properties) {
            Ok(one) => {
                compiled_constraints.push(one);
                proof {
                    assert(constraint_views(compiled_constraints@) =~= constraint_views(
                        before_compiled,
                    ).push(one@));
                }
            },
            Err(reason) => {
                fail_reasons.push(reason);
                proof {
                    assert(texts(fail_reasons@) =~= texts(before_reasons).push(reason@));
                }
            },
        }
        i += 1;
    }
    proof {
        assert(constraints.take(constraints.len() as int) == constraints);
    }
    if compiled_constraints.is_empty() {
        return Err(
            ConstraintCompileError::AllConstraintsFailed {
                reason: join(fail_reasons.as_slice(), "; "),
            },
        );
    }
    proof {
        law_compiled_filters_carry_values(*response, require_constraints, allowed);
    }
    Ok(AccessScope::from_constraints(compiled_constraints))
}

// ── Laws of the compiler ────────────────────────────────────────────

/// Whether a row is accessible after a compilation that ended in `end`. A
/// compilation that ended in an error gives access to no row.
pub open spec fn grants(end: Compiled, row: PropertyRow) -> bool {
    match end {
        Compiled::Scope(scope) => scope_admits(scope, row),
        Compiled::Denied => false,
        Compiled::AllConstraintsFailed(_) => false,
    }
}

/// Some predicate of the constraint is on a property outside `supported`.
pub open spec fn has_unsupported_predicate(
    constraint: Constraint,
    supported: Set<Seq<char>>,
) -> bool {
    exists|j: int|
        0 <= j < constraint.predicates@.len() && !supported.contains(
            (#[trigger] constraint.predicates@[j]).spec_property(),
        )
}

/// The predicates of the constraint on some property list no value.
pub open spec fn has_valueless_property(constraint: Constraint) -> bool {
    exists|k: int|
        0 <= k < merged_filters(constraint.predicates@).len() && (#[trigger] merged_filters(
            constraint.predicates@,
        )[k]).values.len() == 0
}

/// A constraint compiles exactly if it has no predicate on an unsupported
/// property and no property without a value.
pub proof fn lemma_compiles_iff(constraint: Constraint, supported: Set<Seq<char>>)
    ensures
        compiled_constraint(constraint, supported) is None <==> has_unsupported_predicate(
            constraint,
            supported,
        ) || has_valueless_property(constraint),
{
    lemma_first_unsupported_none(constraint.predicates@, supported);
    lemma_first_valueless_none(merged_filters(constraint.predicates@));
}

/// Fail-closed on unknown properties. Where constraints are required and
/// some came with a grant: a constraint with a predicate on a property
/// outside `supported` is dropped, and so is one whose predicates on some
/// property list no value; every constraint of the scope is a constraint
/// of the answer with neither fault, compiled; and if every constraint of
/// the answer has a predicate on an unsupported property, the compilation
/// ends in `AllConstraintsFailed`.
pub proof fn law_unsupported_constraints_are_dropped(
    response: EvaluationResponse,
    supported: Set<Seq<char>>,
)
    requires
        response.decision,
        response.constraints@.len() > 0,
    ensures
        forall|i: int|
            0 <= i < response.constraints@.len() ==> (compiled_constraint(
                #[trigger] response.constraints@[i],
                supported,
            ) is None <==> has_unsupported_predicate(response.constraints@[i], supported)
                || has_valueless_property(response.constraints@[i])),
        forall|k: int|
            0 <= k < survivors(response.constraints@, supported).len() ==> exists|i: int|
                0 <= i < response.constraints@.len() && compiled_constraint(
                    #[trigger] response.constraints@[i],
                    supported,
                ) == Some(#[trigger] survivors(response.constraints@, supported)[k]),
        (forall|i: int|
            0 <= i < response.constraints@.len() ==> has_unsupported_predicate(
                #[trigger] response.constraints@[i],
                supported,
            )) ==> compiled(response, true, supported) is AllConstraintsFailed,
{
    let constraints = response.constraints@;
    let keep = |c: Constraint| compiled_constraint(c, supported);
    assert forall|i: int| 0 <= i < constraints.len() implies (compiled_constraint(
        #[trigger] constraints[i],
        supported,
    ) is None <==> has_unsupported_predicate(constraints[i], supported)
        || has_valueless_property(constraints[i])) by {
        lemma_compiles_iff(constraints[i], supported);
    }
    assert forall|k: int| 0 <= k < survivors(constraints, supported).len() implies exists|i: int|
        0 <= i < constraints.len() && compiled_constraint(#[trigger] constraints[i], supported)
            == Some(#[trigger] survivors(constraints, supported)[k]) by {
        let i = lemma_filter_map_source(constraints, keep, k);
    }
    if forall|i: int|
        0 <= i < constraints.len() ==> has_unsupported_predicate(
            #[trigger] constraints[i],
            supported,
        ) {
        if survivors(constraints, supported).len() > 0 {
            let i = lemma_filter_map_source(constraints, keep, 0);
            assert(has_unsupported_predicate(constraints[i], supported));
        }
    }
}

/// No filter without values. Every filter of a compiled scope is an `In`
/// filter that carries at least one value.
pub proof fn law_compiled_filters_carry_values(
    response: EvaluationResponse,
    require_constraints: bool,
    supported: Set<Seq<char>>,
)
    ensures
        compiled(response, require_constraints, supported) matches Compiled::Scope(scope)
            ==> no_empty_filter(scope) && forall|i: int, j: int|
            0 <= i < scope.constraints.len() && 0 <= j < scope.constraints[i].len() ==> (
            #[trigger] scope.constraints[i][j]).op == FilterOp::In,
{
    if let Compiled::Scope(scope) = compiled(response, require_constraints, supported) {
        let constraints = response.constraints@;
        let keep = |c: Constraint| compiled_constraint(c, supported);
        assert forall|i: int, j: int|
            0 <= i < scope.constraints.len() && 0 <= j < scope.constraints[i].len() implies (
        #[trigger] scope.constraints[i][j]).values.len() > 0 by {
            let source = lemma_filter_map_source(constraints, keep, i);
            lemma_first_valueless_none(merged_filters(constraints[source].predicates@));
        }
    }
}

/// Supporting more properties never narrows access. For one answer, a row
/// that is accessible after compiling with `narrow` is accessible after
/// compiling with any `wide` that holds every name of `narrow`.
pub proof fn law_supported_properties_only_widen(
    response: EvaluationResponse,
    require_constraints: bool,
    narrow: Set<Seq<char>>,
    wide: Set<Seq<char>>,
    row: PropertyRow,
)
    requires
        narrow.subset_of(wide),
        grants(compiled(response, require_constraints, narrow), row),
    ensures
        grants(compiled(response, require_constraints, wide), row),
{
    let constraints = response.constraints@;
    if require_constraints && constraints.len() > 0 {
        let kept_narrow = survivors(constraints, narrow);
        let k = choose|k: int|
            0 <= k < kept_narrow.len() && constraint_matches(#[trigger] kept_narrow[k], row);
        let keep = |c: Constraint| compiled_constraint(c, narrow);
        assert(constraints.filter_map(keep).contains(kept_narrow[k]));
        constraints.lemma_filter_map_contains(keep, kept_narrow[k]);
        let t = choose|t: Constraint|
            #[trigger] constraints.contains(t) && keep(t) == Some(kept_narrow[k]);
        let i = choose|i: int| 0 <= i < constraints.len() && constraints[i] == t;
        lemma_first_unsupported_none(constraints[i].predicates@, narrow);
        lemma_first_unsupported_none(constraints[i].predicates@, wide);
        assert(compiled_constraint(constraints[i], wide) == Some(kept_narrow[k]));
        lemma_filter_map_keeps(constraints, |c: Constraint| compiled_constraint(c, wide), i);
        let kept_wide = survivors(constraints, wide);
        let m = choose|m: int| 0 <= m < kept_wide.len() && kept_wide[m] == kept_narrow[k];
        let scope = AccessScopeView::constrained(kept_wide);
        assert(constraint_matches(scope.constraints[m], row));
    }
}

} // verus!
