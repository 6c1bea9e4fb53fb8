//! From an access scope to a storage condition.
//!
//! An entity declares which storage column holds each authorization
//! property. A scope is translated filter by filter; a constraint with a
//! filter that cannot be translated is left out, so a mismatch of
//! vocabulary narrows access and never widens it.

use vstd::prelude::*;

use crate::access_scope::{
    constraint_matches, constraint_views, filter_matches, filter_views, scope_admits, AccessScope,
    AccessScopeView, FilterOp, PropertyRow, ScopeConstraint, ScopeFilterView,
};
use crate::id::{copy_ids, Uuid};
use crate::sequences::{lemma_filter_map_keeps, lemma_filter_map_source};
use crate::text::str_eq;

verus! {

// ── Conditions ──────────────────────────────────────────────────────

/// `column IN (values)`.
#[derive(Clone, Debug, PartialEq, Eq)]
pub struct ColumnIn<C> {
    /// The storage column.
    pub column: C,
    /// The values of which the column must hold one.
    pub values: Vec<Uuid>,
}

/// A storage condition: what a query adds to its `WHERE` clause.
#[derive(Clone, Debug, PartialEq, Eq)]
pub enum Condition<C> {
    /// No filtering: every row passes.
    True,
    /// `WHERE false`: no row passes.
    False,
    /// An OR of groups, each group an AND of its terms.
    AnyOf(Vec<Vec<ColumnIn<C>>>),
}

/// What a term says.
pub struct ColumnInView<C> {
    pub column: C,
    pub values: Seq<Uuid>,
}

/// What a condition says.
pub enum ConditionView<C> {
    True,
    False,
    AnyOf(Seq<Seq<ColumnInView<C>>>),
}

impl<C> View for ColumnIn<C> {
    type V = ColumnInView<C>;

    open spec fn view(&self) -> ColumnInView<C> {
        ColumnInView { column: self.column, values: self.values@ }
    }
}

/// The views of the terms of a group.
pub open spec fn term_views<C>(terms: Seq<ColumnIn<C>>) -> Seq<ColumnInView<C>> {
    terms.map_values(|t: ColumnIn<C>| t@)
}

/// The views of the groups of a condition.
pub open spec fn group_views<C>(groups: Seq<Vec<ColumnIn<C>>>) -> Seq<Seq<ColumnInView<C>>> {
    groups.map_values(|g: Vec<ColumnIn<C>>| term_views(g@))
}

impl<C> View for Condition<C> {
    type V = ConditionView<C>;

    open spec fn view(&self) -> ConditionView<C> {
        match self {
            Condition::True => ConditionView::True,
            Condition::False => ConditionView::False,
            Condition::AnyOf(groups) => ConditionView::AnyOf(group_views(groups@)),
        }
    }
}

/// A stored row: the value of each column that is not null.
pub type StorageRow<C> = Map<C, Uuid>;

/// A row passes a term when the column is not null and its value is one of
/// the term's values.
pub open spec fn term_holds<C>(term: ColumnInView<C>, row: StorageRow<C>) -> bool {
    row.contains_key(term.column) && term.values.contains(row[term.column])
}

/// A row passes a group when it passes every term of it.
pub open spec fn group_holds<C>(terms: Seq<ColumnInView<C>>, row: StorageRow<C>) -> bool {
    forall|j: int| 0 <= j < terms.len() ==> term_holds(#[trigger] terms[j], row)
}

/// Whether a row passes a condition.
pub open spec fn condition_holds<C>(condition: ConditionView<C>, row: StorageRow<C>) -> bool {
    match condition {
        ConditionView::True => true,
        ConditionView::False => false,
        ConditionView::AnyOf(groups) => exists|i: int|
            0 <= i < groups.len() && group_holds(#[trigger] groups[i], row),
    }
}

// ── Property to column ──────────────────────────────────────────────

/// The column of the first pair on `property`, if there is one.
pub open spec fn column_of<C>(pairs: Seq<(Seq<char>, C)>, property: Seq<char>) -> Option<C>
    decreases pairs.len(),
{
    if pairs.len() == 0 {
        None
    } else if pairs[0].0 == property {
        Some(pairs[0].1)
    } else {
        column_of(pairs.skip(1), property)
    }
}

/// The property-to-column mapping that an entity declares.
#[derive(Clone, Debug)]
pub struct PropertyColumns<C> {
    pairs: Vec<(String, C)>,
}

impl<C> View for PropertyColumns<C> {
    type V = Seq<(Seq<char>, C)>;

    closed spec fn view(&self) -> Seq<(Seq<char>, C)> {
        self.pairs@.map_values(|pair: (String, C)| (pair.0@, pair.1))
    }
}

impl<C: Copy> PropertyColumns<C> {
    /// The mapping of the given pairs of property and column. Where a
    /// property occurs more than once, its first pair counts.
    pub fn new(pairs: Vec<(String, C)>) -> (columns: PropertyColumns<C>)
        ensures
            columns@ == pairs@.map_values(|pair: (String, C)| (pair.0@, pair.1)),
    {
        PropertyColumns { pairs }
    }

    /// The column that holds `property`, if the entity declares one.
    pub fn resolve_property(&self, property: &str) -> (column: Option<C>)
        ensures
            column == column_of(self@, property@),
    {
        let mut i: usize = 0;
        proof {
            assert(self@.skip(0) == self@);
        }
        while i < self.pairs.len()
            invariant
                i <= self.pairs.len(),
                column_of(self@, property@) == column_of(self@.skip(i as int), property@),
            decreases self.pairs.len() - i,
        {
            proof {
                assert(self@.skip(i as int)[0] == self@[i as int]);
                assert(self@.skip(i as int).skip(1) == self@.skip(i + 1));
            }
            if str_eq(self.pairs[i].0.as_str(), property) {
                return Some(self.pairs[i].1);
            }
            i += 1;
        }
        None
    }
}

// ── What a scope translates to ──────────────────────────────────────

/// What a filter translates to: a term on the filter's column, if the
/// entity declares a column for the property and the filter has a value.
pub open spec fn translated_filter<C>(
    filter: ScopeFilterView,
    columns: Seq<(Seq<char>, C)>,
) -> Option<ColumnInView<C>> {
    match column_of(columns, filter.property) {
        Some(column) => if filter.values.len() > 0 {
            Some(ColumnInView { column, values: filter.values })
        } else {
            None
        },
        None => None,
    }
}

/// What a constraint translates to: the group of its filters' terms, if
/// every filter translates.
pub open spec fn translated_constraint<C>(
    constraint: Seq<ScopeFilterView>,
    columns: Seq<(Seq<char>, C)>,
) -> Option<Seq<ColumnInView<C>>> {
    if forall|j: int|
        0 <= j < constraint.len() ==> translated_filter(#[trigger] constraint[j], columns)
            is Some {
        Some(
            constraint.map_values(|f: ScopeFilterView| translated_filter(f, columns)->Some_0),
        )
    } else {
        None
    }
}

/// The constraints that translate, translated, in order.
pub open spec fn translated_constraints<C>(
    constraints: Seq<Seq<ScopeFilterView>>,
    columns: Seq<(Seq<char>, C)>,
) -> Seq<Seq<ColumnInView<C>>> {
    constraints.filter_map(|c: Seq<ScopeFilterView>| translated_constraint(c, columns))
}

/// What a scope translates to. Allow-all is no filtering. Otherwise the
/// condition is the OR of the constraints that translate, and `WHERE false`
/// if there is none, as for deny-all.
pub open spec fn translated<C>(
    scope: AccessScopeView,
    columns: Seq<(Seq<char>, C)>,
) -> ConditionView<C> {
    if scope.unconstrained {
        ConditionView::True
    } else if translated_constraints(scope.constraints, columns).len() == 0 {
        ConditionView::False
    } else {
        ConditionView::AnyOf(translated_constraints(scope.constraints, columns))
    }
}

/// A stored row as authorization sees it: a property has the value of its
/// column, where the entity declares a column for it and the column is not
/// null.
pub open spec fn property_row<C>(columns: Seq<(Seq<char>, C)>, row: StorageRow<C>) -> PropertyRow {
    Map::new(
        |property: Seq<char>|
            column_of(columns, property) is Some && row.contains_key(
                column_of(columns, property)->Some_0,
            ),
        |property: Seq<char>| row[column_of(columns, property)->Some_0],
    )
}

// ── The translator ──────────────────────────────────────────────────

/// Translates one constraint into the AND of its filters' terms, or into
/// nothing if a filter cannot be translated.
fn build_constraint_condition<C: Copy>(
    constraint: &ScopeConstraint,
    columns: &PropertyColumns<C>,
) -> (group: Option<Vec<ColumnIn<C>>>)
    ensures
        match group {
            Some(terms) => translated_constraint(constraint@, columns@) == Some(term_views(terms@)),
            None => translated_constraint(constraint@, columns@) is None,
        },
{
    let filters = constraint.filters();
    let mut terms: Vec<ColumnIn<C>> = Vec::new();
    let mut j: usize = 0;
    while j < filters.len()
        invariant
            filter_views(filters@) == constraint@,
            j <= filters@.len(),
            terms@.len() == j,
            forall|m: int|
                0 <= m < j ==> translated_filter(#[trigger] constraint@[m], columns@) == Some(
                    terms@[m]@,
                ),
        decreases filters@.len() - j,
    {
        let filter = &filters[j];
        assert(filter@ == constraint@[j as int]);
        let column = match columns.resolve_property(filter.property()) {
            Some(column) => column,
            None => {
                return None;
            },
        };
        if filter.values().len() == 0 {
            return None;
        }
        match filter.op() {
            FilterOp::In => {
                terms.push(ColumnIn { column, values: copy_ids(filter.values()) });
            },
        }
        j += 1;
    }
    proof {
        assert(constraint@.len() == filters@.len());
        assert(term_views(terms@) =~= constraint@.map_values(
            |f: ScopeFilterView| translated_filter(f, columns@)->Some_0,
        ));
    }
    Some(terms)
}

/// Translates an access scope into a storage condition, by the columns
/// that the entity declares.
///
/// An unconstrained scope gives no filtering. A deny-all scope gives
/// `WHERE false`. Otherwise each constraint becomes the AND of its filters'
/// terms, `column IN (values)`; a constraint with a filter on a property
/// that has no column, or with a filter without values, is left out. The
/// condition is the OR of the constraints that are left, in order, and
/// `WHERE false` if none is left.
pub fn build_scope_condition<C: Copy>(scope: &AccessScope, columns: &PropertyColumns<C>) -> (condition:
    Condition<C>)
    ensures
        condition@ == translated(scope@, columns@),
        scope@.unconstrained ==> condition@ == ConditionView::<C>::True,
        scope@.is_deny_all() ==> condition@ == ConditionView::<C>::False,
{
    if scope.is_unconstrained() {
        return Condition::True;
    }
    if scope.is_deny_all() {
        return Condition::False;
    }
    let constraints = scope.constraints();
    let ghost keep = |c: Seq<ScopeFilterView>| translated_constraint(c, columns@);
    let mut groups: Vec<Vec<ColumnIn<C>>> = Vec::new();
    let mut i: usize = 0;
    while i < constraints.len()
        invariant
            constraint_views(constraints@) == scope@.constraints,
            keep == |c: Seq<ScopeFilterView>| translated_constraint(c, columns@),
            i <= constraints@.len(),
            group_views(groups@) == scope@.constraints.take(i as int).filter_map(keep),
        decreases constraints@.len() - i,
    {
        proof {
            assert(constraints@[i as int]@ == scope@.constraints[i as int]);
            scope@.constraints.lemma_filter_map_take_succ(keep, i as int);
        }
        let ghost before = groups@;
        match build_constraint_condition(&constraints[i], columns) {
            Some(terms) => {
                groups.push(terms);
                proof {
                    assert(group_views(groups@) =~= group_views(before).push(term_views(terms@)));
                }
            },
            None => {},
        }
        i += 1;
    }
    proof {
        assert(scope@.constraints.take(constraints@.len() as int) == scope@.constraints);
    }
    if groups.is_empty() {
        return Condition::False;
    }
    Condition::AnyOf(groups)
}

// ── Laws of the translation ─────────────────────────────────────────

/// AND within a constraint. A stored row passes the translation of a
/// constraint exactly if, seen through the entity's columns, it passes
/// every filter of the constraint. A constraint that does not translate is
/// one that no row passes.
pub proof fn law_constraint_is_conjunction<C>(
    constraint: Seq<ScopeFilterView>,
    columns: Seq<(Seq<char>, C)>,
    row: StorageRow<C>,
)
    ensures
        constraint_matches(constraint, property_row(columns, row)) <==> (translated_constraint(
            constraint,
            columns,
        ) is Some && group_holds(translated_constraint(constraint, columns)->Some_0, row)),
        constraint_matches(constraint, property_row(columns, row)) <==> forall|j: int|
            0 <= j < constraint.len() ==> filter_matches(
                #[trigger] constraint[j],
                property_row(columns, row),
            ),
{
    let seen = property_row(columns, row);
    let terms = constraint.map_values(|f: ScopeFilterView| translated_filter(f, columns)->Some_0);
    if constraint_matches(constraint, seen) {
        assert forall|j: int| 0 <= j < constraint.len() implies translated_filter(
            #[trigger] constraint[j],
            columns,
        ) is Some by {
            assert(filter_matches(constraint[j], seen));
        }
        assert forall|j: int| 0 <= j < terms.len() implies term_holds(#[trigger] terms[j], row) by {
            assert(filter_matches(constraint[j], seen));
        }
    }
    if translated_constraint(constraint, columns) is Some && group_holds(terms, row) {
        assert forall|j: int| 0 <= j < constraint.len() implies filter_matches(
            #[trigger] constraint[j],
            seen,
        ) by {
            assert(translated_filter(constraint[j], columns) is Some);
            assert(term_holds(terms[j], row));
        }
    }
}

/// OR over constraints. A stored row passes the translation of a scope
/// exactly if, seen through the entity's columns, the scope admits it: the
/// scope is allow-all, or the row passes at least one of its constraints.
pub proof fn law_condition_is_disjunction<C>(
    scope: AccessScopeView,
    columns: Seq<(Seq<char>, C)>,
    row: StorageRow<C>,
)
    ensures
        condition_holds(translated(scope, columns), row) <==> scope_admits(
            scope,
            property_row(columns, row),
        ),
{
    let seen = property_row(columns, row);
    let keep = |c: Seq<ScopeFilterView>| translated_constraint(c, columns);
    let groups = translated_constraints(scope.constraints, columns);
    if !scope.unconstrained {
        if condition_holds(translated(scope, columns), row) {
            let k = choose|k: int| 0 <= k < groups.len() && group_holds(#[trigger] groups[k], row);
            let i = lemma_filter_map_source(scope.constraints, keep, k);
            law_constraint_is_conjunction(scope.constraints[i], columns, row);
            assert(constraint_matches(scope.constraints[i], seen));
        }
        if scope_admits(scope, seen) {
            let i = choose|i: int|
                0 <= i < scope.constraints.len() && constraint_matches(
                    #[trigger] scope.constraints[i],
                    seen,
                );
            law_constraint_is_conjunction(scope.constraints[i], columns, row);
            lemma_filter_map_keeps(scope.constraints, keep, i);
            let wanted = translated_constraint(scope.constraints[i], columns)->Some_0;
            assert(groups.contains(wanted));
            let k = choose|k: int| 0 <= k < groups.len() && groups[k] == wanted;
            let condition = ConditionView::AnyOf(groups);
            assert(group_holds(condition->AnyOf_0[k], row));
        }
    }
}

/// The two ends. The translation of deny-all, which is the default scope,
/// lets no row pass; the translation of allow-all lets every row pass.
pub proof fn law_deny_all_and_allow_all<C>(columns: Seq<(Seq<char>, C)>, row: StorageRow<C>)
    ensures
        translated(AccessScopeView::deny_all(), columns) == ConditionView::<C>::False,
        !condition_holds(translated(AccessScopeView::deny_all(), columns), row),
        translated(AccessScopeView::allow_all(), columns) == ConditionView::<C>::True,
        condition_holds(translated(AccessScopeView::allow_all(), columns), row),
{
}

/// Some filter of the constraint is on a property for which the entity
/// declares no column.
pub open spec fn has_unknown_property<C>(
    constraint: Seq<ScopeFilterView>,
    columns: Seq<(Seq<char>, C)>,
) -> bool {
    exists|j: int|
        0 <= j < constraint.len() && column_of(columns, (#[trigger] constraint[j]).property)
            is None
}

/// Fail-closed on unknown properties. A constraint with a filter on a
/// property without a column is left out, and a constrained scope of such
/// constraints alone translates to `WHERE false`.
pub proof fn law_unknown_properties_deny<C>(scope: AccessScopeView, columns: Seq<(Seq<char>, C)>)
    requires
        !scope.unconstrained,
    ensures
        forall|i: int|
            0 <= i < scope.constraints.len() && has_unknown_property(
                #[trigger] scope.constraints[i],
                columns,
            ) ==> translated_constraint(scope.constraints[i], columns) is None,
        (forall|i: int|
            0 <= i < scope.constraints.len() ==> has_unknown_property(
                #[trigger] scope.constraints[i],
                columns,
            )) ==> translated(scope, columns) == ConditionView::<C>::False,
{
    let keep = |c: Seq<ScopeFilterView>| translated_constraint(c, columns);
    let groups = translated_constraints(scope.constraints, columns);
    assert forall|i: int|
        0 <= i < scope.constraints.len() && has_unknown_property(
            #[trigger] scope.constraints[i],
            columns,
        ) implies translated_constraint(scope.constraints[i], columns) is None by {
        let j = choose|j: int|
            0 <= j < scope.constraints[i].len() && column_of(
                columns,
                (#[trigger] scope.constraints[i][j]).property,
            ) is None;
        assert(translated_filter(scope.constraints[i][j], columns) is None);
    }
    if groups.len() > 0 {
        let i = lemma_filter_map_source(scope.constraints, keep, 0);
        if has_unknown_property(scope.constraints[i], columns) {
            assert(translated_constraint(scope.constraints[i], columns) is None);
        }
    }
}

} // verus!
