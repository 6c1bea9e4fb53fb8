//! Access scopes: which rows a subject may see, as an OR of ANDs of filters
//! over named resource properties, with two distinguished states beside the
//! constrained one: deny-all and allow-all.

use vstd::prelude::*;

use crate::id::{contains_id, copy_ids, extend_ids, Uuid};
use crate::properties;
use crate::text::str_eq;

verus! {

/// The operation of a scope filter.
#[derive(Clone, Copy, Debug, PartialEq, Eq, Structural)]
pub enum FilterOp {
    /// `property IN (values)`: flat set membership.
    In,
}

/// What a scope filter says: the property, the operation and the values.
pub struct ScopeFilterView {
    pub property: Seq<char>,
    pub op: FilterOp,
    pub values: Seq<Uuid>,
}

/// What an access scope says: its constraints, each the list of its filters,
/// and the allow-all flag.
pub struct AccessScopeView {
    pub constraints: Seq<Seq<ScopeFilterView>>,
    pub unconstrained: bool,
}

/// A row as authorization sees it: the value of each property that the row
/// has. A property that the row lacks is not a key of the map.
pub type PropertyRow = Map<Seq<char>, Uuid>;

// ── What a scope means ──────────────────────────────────────────────

/// A row passes a filter when it has the filter's property and the value is
/// one of the filter's values.
pub open spec fn filter_matches(filter: ScopeFilterView, row: PropertyRow) -> bool {
    match filter.op {
        FilterOp::In => row.contains_key(filter.property) && filter.values.contains(
            row[filter.property],
        ),
    }
}

/// A row passes a constraint when it passes every filter of it.
pub open spec fn constraint_matches(constraint: Seq<ScopeFilterView>, row: PropertyRow) -> bool {
    forall|j: int| 0 <= j < constraint.len() ==> filter_matches(#[trigger] constraint[j], row)
}

/// A row is accessible under a scope when the scope is allow-all, or the row
/// passes at least one of its constraints.
pub open spec fn scope_admits(scope: AccessScopeView, row: PropertyRow) -> bool {
    scope.unconstrained || exists|i: int|
        0 <= i < scope.constraints.len() && constraint_matches(#[trigger] scope.constraints[i], row)
}

/// Every filter of the scope carries at least one value.
pub open spec fn no_empty_filter(scope: AccessScopeView) -> bool {
    forall|i: int, j: int|
        0 <= i < scope.constraints.len() && 0 <= j < scope.constraints[i].len() ==> (
        #[trigger] scope.constraints[i][j]).values.len() > 0
}

// ── What the accessors compute ──────────────────────────────────────

/// The values that one filter contributes for `property`: its own, if it is
/// an `In` filter on that property, and none otherwise.
pub open spec fn filter_values_for(filter: ScopeFilterView, property: Seq<char>) -> Seq<Uuid> {
    if filter.property == property && filter.op == FilterOp::In {
        filter.values
    } else {
        Seq::empty()
    }
}

/// The values for `property` over the filters of one constraint, in order.
pub open spec fn constraint_values_for(
    constraint: Seq<ScopeFilterView>,
    property: Seq<char>,
) -> Seq<Uuid>
    decreases constraint.len(),
{
    if constraint.len() == 0 {
        Seq::empty()
    } else {
        constraint_values_for(constraint.drop_last(), property) + filter_values_for(
            constraint.last(),
            property,
        )
    }
}

/// The values for `property` over all constraints, in order.
pub open spec fn scope_values_for(
    constraints: Seq<Seq<ScopeFilterView>>,
    property: Seq<char>,
) -> Seq<Uuid>
    decreases constraints.len(),
{
    if constraints.len() == 0 {
        Seq::empty()
    } else {
        scope_values_for(constraints.drop_last(), property) + constraint_values_for(
            constraints.last(),
            property,
        )
    }
}

/// Some filter of the constraint is an `In` filter on `property` that lists
/// `id`.
pub open spec fn constraint_lists(
    constraint: Seq<ScopeFilterView>,
    property: Seq<char>,
    id: Uuid,
) -> bool {
    exists|j: int|
        0 <= j < constraint.len() && filter_values_for(
            #[trigger] constraint[j],
            property,
        ).contains(id)
}

/// Some filter of some constraint is an `In` filter on `property` that lists
/// `id`.
pub open spec fn scope_lists(
    constraints: Seq<Seq<ScopeFilterView>>,
    property: Seq<char>,
    id: Uuid,
) -> bool {
    exists|i: int|
        0 <= i < constraints.len() && constraint_lists(#[trigger] constraints[i], property, id)
}

/// Some filter of the constraint is on `property`.
pub open spec fn constraint_mentions(constraint: Seq<ScopeFilterView>, property: Seq<char>) -> bool {
    exists|j: int| 0 <= j < constraint.len() && (#[trigger] constraint[j]).property == property
}

/// Some filter of some constraint is on `property`.
pub open spec fn scope_mentions(
    constraints: Seq<Seq<ScopeFilterView>>,
    property: Seq<char>,
) -> bool {
    exists|i: int|
        0 <= i < constraints.len() && constraint_mentions(#[trigger] constraints[i], property)
}

/// The filter `property IN (values)`.
pub open spec fn in_filter(property: Seq<char>, values: Seq<Uuid>) -> ScopeFilterView {
    ScopeFilterView { property, op: FilterOp::In, values }
}

/// The single constraint that the tenant-and-resource constructor builds: a
/// tenant filter if there are tenants, then a resource filter if there are
/// resources.
pub open spec fn tenant_resource_filters(
    tenant_ids: Seq<Uuid>,
    resource_ids: Seq<Uuid>,
) -> Seq<ScopeFilterView> {
    let tenants = if tenant_ids.len() > 0 {
        seq![
            ScopeFilterView {
                property: properties::OWNER_TENANT_ID@,
                op: FilterOp::In,
                values: tenant_ids,
            },
        ]
    } else {
        Seq::empty()
    };
    let resources = if resource_ids.len() > 0 {
        seq![
            ScopeFilterView {
                property: properties::RESOURCE_ID@,
                op: FilterOp::In,
                values: resource_ids,
            },
        ]
    } else {
        Seq::empty()
    };
    tenants + resources
}

// ── Filters ─────────────────────────────────────────────────────────

/// A single scope filter: a condition on a named resource property.
///
/// The property name is an authorization concept; an entity maps it to a
/// storage column.
#[derive(Clone, Debug, PartialEq, Eq)]
pub struct ScopeFilter {
    property: String,
    op: FilterOp,
    values: Vec<Uuid>,
}

impl View for ScopeFilter {
    type V = ScopeFilterView;

    closed spec fn view(&self) -> ScopeFilterView {
        ScopeFilterView { property: self.property@, op: self.op, values: self.values@ }
    }
}

/// The views of a sequence of filters.
pub open spec fn filter_views(filters: Seq<ScopeFilter>) -> Seq<ScopeFilterView> {
    filters.map_values(|f: ScopeFilter| f@)
}

impl ScopeFilter {
    /// A filter on `property` with the given operation and values.
    pub fn new(property: &str, op: FilterOp, values: Vec<Uuid>) -> (filter: ScopeFilter)
        ensures
            filter@ == (ScopeFilterView { property: property@, op: op, values: values@ }),
    {
        ScopeFilter { property: property.to_owned(), op, values }
    }

    /// The authorization property name.
    pub fn property(&self) -> (property: &str)
        ensures
            property@ == self@.property,
    {
        self.property.as_str()
    }

    /// The filter operation.
    pub fn op(&self) -> (op: &FilterOp)
        ensures
            *op == self@.op,
    {
        &self.op
    }

    /// The filter values.
    pub fn values(&self) -> (values: &[Uuid])
        ensures
            values@ == self@.values,
    {
        self.values.as_slice()
    }

    /// A copy of the filter.
    pub(crate) fn duplicate(&self) -> (copy: ScopeFilter)
        ensures
            copy@ == self@,
    {
        ScopeFilter {
            property: self.property.clone(),
            op: self.op,
            values: copy_ids(self.values.as_slice()),
        }
    }
}

// ── Constraints ─────────────────────────────────────────────────────

/// A conjunction (AND) of scope filters: one access path.
///
/// A row is accessible through the constraint only if it passes all of its
/// filters.
#[derive(Clone, Debug, PartialEq, Eq)]
pub struct ScopeConstraint {
    filters: Vec<ScopeFilter>,
}

impl View for ScopeConstraint {
    type V = Seq<ScopeFilterView>;

    closed spec fn view(&self) -> Seq<ScopeFilterView> {
        filter_views(self.filters@)
    }
}

/// The views of a sequence of constraints.
pub open spec fn constraint_views(constraints: Seq<ScopeConstraint>) -> Seq<Seq<ScopeFilterView>> {
    constraints.map_values(|c: ScopeConstraint| c@)
}

impl ScopeConstraint {
    /// A constraint of the given filters.
    pub fn new(filters: Vec<ScopeFilter>) -> (constraint: ScopeConstraint)
        ensures
            constraint@ == filter_views(filters@),
    {
        ScopeConstraint { filters }
    }

    /// The filters of the constraint, which are AND-ed together.
    pub fn filters(&self) -> (filters: &[ScopeFilter])
        ensures
            filter_views(filters@) == self@,
    {
        self.filters.as_slice()
    }

    /// Whether the constraint has no filters.
    pub fn is_empty(&self) -> (empty: bool)
        ensures
            empty == (self@.len() == 0),
    {
        self.filters.is_empty()
    }

    /// A copy of the constraint.
    pub(crate) fn duplicate(&self) -> (copy: ScopeConstraint)
        ensures
            copy@ == self@,
    {
        let mut filters: Vec<ScopeFilter> = Vec::new();
        let mut j: usize = 0;
        while j < self.filters.len()
            invariant
                j <= self.filters.len(),
                filter_views(filters@) == self@.take(j as int),
            decreases self.filters.len() - j,
        {
            let ghost before = filters@;
            filters.push(self.filters[j].duplicate());
            proof {
                assert(filter_views(filters@) =~= filter_views(before).push(
                    self.filters@[j as int]@,
                ));
                assert(self@.take(j + 1) =~= self@.take(j as int).push(self@[j as int]));
            }
            j += 1;
        }
        proof {
            assert(self@.take(self@.len() as int) == self@);
        }
        ScopeConstraint { filters }
    }

    /// The values that the constraint lists for `property`, appended to
    /// `target`.
    fn collect_values_for(&self, property: &str, target: &mut Vec<Uuid>)
        ensures
            final(target)@ == old(target)@ + constraint_values_for(self@, property@),
    {
        let mut j: usize = 0;
        while j < self.filters.len()
            invariant
                j <= self.filters.len(),
                target@ == old(target)@ + constraint_values_for(self@.take(j as int), property@),
            decreases self.filters.len() - j,
        {
            let filter = &self.filters[j];
            proof {
                lemma_constraint_values_step(self@, j as int, property@);
            }
            if str_eq(filter.property.as_str(), property) && filter.op == FilterOp::In {
                extend_ids(target, filter.values.as_slice());
            }
            j += 1;
        }
        proof {
            assert(self@.take(self@.len() as int) == self@);
        }
    }

    /// Whether some `In` filter of the constraint on `property` lists `id`.
    fn lists(&self, property: &str, id: Uuid) -> (found: bool)
        ensures
            found == constraint_lists(self@, property@, id),
    {
        let mut j: usize = 0;
        while j < self.filters.len()
            invariant
                j <= self.filters.len(),
                forall|m: int|
                    0 <= m < j ==> !filter_values_for(#[trigger] self@[m], property@).contains(id),
            decreases self.filters.len() - j,
        {
            let filter = &self.filters[j];
            if str_eq(filter.property.as_str(), property) && filter.op == FilterOp::In
                && contains_id(filter.values.as_slice(), id) {
                assert(filter_values_for(self@[j as int], property@).contains(id));
                return true;
            }
            j += 1;
        }
        false
    }

    /// Whether some filter of the constraint is on `property`.
    fn mentions(&self, property: &str) -> (found: bool)
        ensures
            found == constraint_mentions(self@, property@),
    {
        let mut j: usize = 0;
        while j < self.filters.len()
            invariant
                j <= self.filters.len(),
                forall|m: int| 0 <= m < j ==> (#[trigger] self@[m]).property != property@,
            decreases self.filters.len() - j,
        {
            if str_eq(self.filters[j].property.as_str(), property) {
                assert(self@[j as int].property == property@);
                return true;
            }
            j += 1;
        }
        false
    }
}

/// Taking one more filter of a constraint adds that filter's values.
proof fn lemma_constraint_values_step(constraint: Seq<ScopeFilterView>, j: int, property: Seq<char>)
    requires
        0 <= j < constraint.len(),
    ensures
        constraint_values_for(constraint.take(j + 1), property) == constraint_values_for(
            constraint.take(j),
            property,
        ) + filter_values_for(constraint[j], property),
{
    assert(constraint.take(j + 1).drop_last() == constraint.take(j));
}

/// Taking one more constraint of a scope adds that constraint's values.
proof fn lemma_scope_values_step(
    constraints: Seq<Seq<ScopeFilterView>>,
    i: int,
    property: Seq<char>,
)
    requires
        0 <= i < constraints.len(),
    ensures
        scope_values_for(constraints.take(i + 1), property) == scope_values_for(
            constraints.take(i),
            property,
        ) + constraint_values_for(constraints[i], property),
{
    assert(constraints.take(i + 1).drop_last() == constraints.take(i));
}

// ── Scopes ──────────────────────────────────────────────────────────

/// A disjunction (OR) of scope constraints: what data is accessible.
///
/// Each constraint is an independent access path. The filters within a
/// constraint are AND-ed. An unconstrained scope means no row-level
/// filtering. The default is deny-all.
#[derive(Clone, Debug, PartialEq, Eq)]
pub struct AccessScope {
    constraints: Vec<ScopeConstraint>,
    unconstrained: bool,
}

impl View for AccessScope {
    type V = AccessScopeView;

    closed spec fn view(&self) -> AccessScopeView {
        AccessScopeView {
            constraints: constraint_views(self.constraints@),
            unconstrained: self.unconstrained,
        }
    }
}

impl AccessScopeView {
    /// The scope that admits no row.
    pub open spec fn deny_all() -> AccessScopeView {
        AccessScopeView { constraints: Seq::empty(), unconstrained: false }
    }

    /// The scope that admits every row.
    pub open spec fn allow_all() -> AccessScopeView {
        AccessScopeView { constraints: Seq::empty(), unconstrained: true }
    }

    /// The constrained scope of the given access paths.
    pub open spec fn constrained(constraints: Seq<Seq<ScopeFilterView>>) -> AccessScopeView {
        AccessScopeView { constraints, unconstrained: false }
    }

    /// Not allow-all, and no access path.
    pub open spec fn is_deny_all(self) -> bool {
        !self.unconstrained && self.constraints.len() == 0
    }
}

impl Default for AccessScope {
    /// The default is deny-all: no constraints, and not unconstrained.
    fn default() -> (scope: AccessScope)
        ensures
            scope@ == AccessScopeView::deny_all(),
    {
        AccessScope::deny_all()
    }
}

impl AccessScope {
    // ── Constructors ────────────────────────────────────────────────

    /// A scope of the given constraints, which are OR-ed.
    pub fn from_constraints(constraints: Vec<ScopeConstraint>) -> (scope: AccessScope)
        ensures
            scope@ == AccessScopeView::constrained(constraint_views(constraints@)),
    {
        AccessScope { constraints, unconstrained: false }
    }

    /// A scope of a single constraint.
    pub fn single(constraint: ScopeConstraint) -> (scope: AccessScope)
        ensures
            scope@ == AccessScopeView::constrained(seq![constraint@]),
    {
        let mut constraints: Vec<ScopeConstraint> = Vec::new();
        constraints.push(constraint);
        proof {
            assert(constraint_views(constraints@) == seq![constraint@]);
        }
        AccessScope::from_constraints(constraints)
    }

    /// The allow-all scope: a decision without row-level filtering.
    pub fn allow_all() -> (scope: AccessScope)
        ensures
            scope@ == AccessScopeView::allow_all(),
    {
        let scope = AccessScope { constraints: Vec::new(), unconstrained: true };
        proof {
            assert(scope@.constraints == Seq::<Seq<ScopeFilterView>>::empty());
        }
        scope
    }

    /// The deny-all scope: no access.
    pub fn deny_all() -> (scope: AccessScope)
        ensures
            scope@ == AccessScopeView::deny_all(),
    {
        let scope = AccessScope { constraints: Vec::new(), unconstrained: false };
        proof {
            assert(scope@.constraints == Seq::<Seq<ScopeFilterView>>::empty());
        }
        scope
    }

    // ── Convenience constructors ────────────────────────────────────

    /// A scope of one filter: the owning tenant is one of `ids`. With no
    /// id there is nothing to be one of, and the scope is deny-all.
    pub fn for_tenants(ids: Vec<Uuid>) -> (scope: AccessScope)
        ensures
            ids@.len() == 0 ==> scope@ == AccessScopeView::deny_all(),
            ids@.len() > 0 ==> scope@ == AccessScopeView::constrained(
                seq![seq![in_filter(properties::OWNER_TENANT_ID@, ids@)]],
            ),
            no_empty_filter(scope@),
    {
        AccessScope::for_property(properties::OWNER_TENANT_ID, ids)
    }

    /// A scope for a single tenant.
    pub fn for_tenant(id: Uuid) -> (scope: AccessScope)
        ensures
            scope@ == AccessScopeView::constrained(
                seq![seq![in_filter(properties::OWNER_TENANT_ID@, seq![id])]],
            ),
            no_empty_filter(scope@),
    {
        let mut ids: Vec<Uuid> = Vec::new();
        ids.push(id);
        proof {
            assert(ids@ == seq![id]);
        }
        AccessScope::for_tenants(ids)
    }

    /// A scope of one filter: the row's identity is one of `ids`. With no
    /// id there is nothing to be one of, and the scope is deny-all.
    pub fn for_resources(ids: Vec<Uuid>) -> (scope: AccessScope)
        ensures
            ids@.len() == 0 ==> scope@ == AccessScopeView::deny_all(),
            ids@.len() > 0 ==> scope@ == AccessScopeView::constrained(
                seq![seq![in_filter(properties::RESOURCE_ID@, ids@)]],
            ),
            no_empty_filter(scope@),
    {
        AccessScope::for_property(properties::RESOURCE_ID, ids)
    }

    /// A scope for a single resource.
    pub fn for_resource(id: Uuid) -> (scope: AccessScope)
        ensures
            scope@ == AccessScopeView::constrained(
                seq![seq![in_filter(properties::RESOURCE_ID@, seq![id])]],
            ),
            no_empty_filter(scope@),
    {
        let mut ids: Vec<Uuid> = Vec::new();
        ids.push(id);
        proof {
            assert(ids@ == seq![id]);
        }
        AccessScope::for_resources(ids)
    }

    /// A scope of one access path with a tenant filter and a resource
    /// filter. An empty list contributes no filter; with both lists empty
    /// the scope is deny-all.
    pub fn for_tenants_and_resources(tenant_ids: Vec<Uuid>, resource_ids: Vec<Uuid>) -> (scope:
        AccessScope)
        ensures
            tenant_ids@.len() == 0 && resource_ids@.len() == 0 ==> scope@
                == AccessScopeView::deny_all(),
            tenant_ids@.len() > 0 || resource_ids@.len() > 0 ==> scope@
                == AccessScopeView::constrained(
                seq![tenant_resource_filters(tenant_ids@, resource_ids@)],
            ),
            no_empty_filter(scope@),
    {
        let ghost tenants = tenant_ids@;
        let ghost resources = resource_ids@;
        let mut filters: Vec<ScopeFilter> = Vec::new();
        if !tenant_ids.is_empty() {
            filters.push(ScopeFilter::new(properties::OWNER_TENANT_ID, FilterOp::In, tenant_ids));
        }
        if !resource_ids.is_empty() {
            filters.push(ScopeFilter::new(properties::RESOURCE_ID, FilterOp::In, resource_ids));
        }
        proof {
            assert(filter_views(filters@) == tenant_resource_filters(tenants, resources));
        }
        if filters.is_empty() {
            return AccessScope::deny_all();
        }
        AccessScope::single(ScopeConstraint::new(filters))
    }

    /// A scope of one filter on `property`, or deny-all if there is no id.
    fn for_property(property: &str, ids: Vec<Uuid>) -> (scope: AccessScope)
        ensures
            ids@.len() == 0 ==> scope@ == AccessScopeView::deny_all(),
            ids@.len() > 0 ==> scope@ == AccessScopeView::constrained(
                seq![seq![in_filter(property@, ids@)]],
            ),
            no_empty_filter(scope@),
    {
        if ids.is_empty() {
            return AccessScope::deny_all();
        }
        let ghost values = ids@;
        let mut filters: Vec<ScopeFilter> = Vec::new();
        filters.push(ScopeFilter::new(property, FilterOp::In, ids));
        proof {
            assert(filter_views(filters@) == seq![in_filter(property@, values)]);
        }
        AccessScope::single(ScopeConstraint::new(filters))
    }

    // ── Accessors ───────────────────────────────────────────────────

    /// The constraints of the scope, which are OR-ed.
    pub fn constraints(&self) -> (constraints: &[ScopeConstraint])
        ensures
            constraint_views(constraints@) == self@.constraints,
    {
        self.constraints.as_slice()
    }

    /// Whether the scope is unconstrained (allow-all).
    pub fn is_unconstrained(&self) -> (unconstrained: bool)
        ensures
            unconstrained == self@.unconstrained,
    {
        self.unconstrained
    }

    /// Whether the scope denies all access: it is not unconstrained and has
    /// no constraints.
    pub fn is_deny_all(&self) -> (deny: bool)
        ensures
            deny == self@.is_deny_all(),
    {
        !self.unconstrained && self.constraints.is_empty()
    }

    /// All values that `In` filters on `property` list, over all
    /// constraints, in order of appearance.
    pub fn all_values_for(&self, property: &str) -> (values: Vec<Uuid>)
        ensures
            values@ == scope_values_for(self@.constraints, property@),
    {
        let mut values: Vec<Uuid> = Vec::new();
        let mut i: usize = 0;
        while i < self.constraints.len()
            invariant
                i <= self.constraints.len(),
                values@ == scope_values_for(self@.constraints.take(i as int), property@),
            decreases self.constraints.len() - i,
        {
            proof {
                lemma_scope_values_step(self@.constraints, i as int, property@);
            }
            self.constraints[i].collect_values_for(property, &mut values);
            i += 1;
        }
        proof {
            assert(self@.constraints.take(self@.constraints.len() as int) == self@.constraints);
        }
        values
    }

    /// Whether some `In` filter on `property`, in any constraint, lists
    /// `id`.
    pub fn contains_value(&self, property: &str, id: Uuid) -> (found: bool)
        ensures
            found == scope_lists(self@.constraints, property@, id),
    {
        let mut i: usize = 0;
        while i < self.constraints.len()
            invariant
                i <= self.constraints.len(),
                forall|m: int|
                    0 <= m < i ==> !constraint_lists(
                        #[trigger] self@.constraints[m],
                        property@,
                        id,
                    ),
            decreases self.constraints.len() - i,
        {
            if self.constraints[i].lists(property, id) {
                assert(constraint_lists(self@.constraints[i as int], property@, id));
                return true;
            }
            i += 1;
        }
        false
    }

    /// Whether some filter, in any constraint, is on `property`.
    pub fn has_property(&self, property: &str) -> (found: bool)
        ensures
            found == scope_mentions(self@.constraints, property@),
    {
        let mut i: usize = 0;
        while i < self.constraints.len()
            invariant
                i <= self.constraints.len(),
                forall|m: int|
                    0 <= m < i ==> !constraint_mentions(#[trigger] self@.constraints[m], property@),
            decreases self.constraints.len() - i,
        {
            if self.constraints[i].mentions(property) {
                assert(constraint_mentions(self@.constraints[i as int], property@));
                return true;
            }
            i += 1;
        }
        false
    }
}

// ── Laws of the accessors ───────────────────────────────────────────

/// The values of a constraint for a property are the values that its `In`
/// filters on the property list.
proof fn lemma_constraint_values_are_listed(
    constraint: Seq<ScopeFilterView>,
    property: Seq<char>,
    id: Uuid,
)
    ensures
        constraint_values_for(constraint, property).contains(id) <==> constraint_lists(
            constraint,
            property,
            id,
        ),
    decreases constraint.len(),
{
    if constraint.len() > 0 {
        let rest = constraint.drop_last();
        let last = filter_values_for(constraint.last(), property);
        let all = constraint_values_for(rest, property) + last;
        lemma_constraint_values_are_listed(rest, property, id);
        if all.contains(id) {
            let k = choose|k: int| 0 <= k < all.len() && all[k] == id;
            if k < constraint_values_for(rest, property).len() {
                assert(constraint_values_for(rest, property)[k] == id);
                let j = choose|j: int|
                    0 <= j < rest.len() && filter_values_for(#[trigger] rest[j], property).contains(
                        id,
                    );
                assert(filter_values_for(constraint[j], property).contains(id));
            } else {
                assert(last[k - constraint_values_for(rest, property).len()] == id);
                assert(filter_values_for(constraint[constraint.len() - 1], property).contains(id));
            }
        }
        if constraint_lists(constraint, property, id) {
            let j = choose|j: int|
                0 <= j < constraint.len() && filter_values_for(
                    #[trigger] constraint[j],
                    property,
                ).contains(id);
            if j < rest.len() {
                assert(filter_values_for(rest[j], property).contains(id));
                let k = choose|k: int|
                    0 <= k < constraint_values_for(rest, property).len() && constraint_values_for(
                        rest,
                        property,
                    )[k] == id;
                assert(all[k] == id);
            } else {
                let k = choose|k: int| 0 <= k < last.len() && last[k] == id;
                assert(all[constraint_values_for(rest, property).len() + k] == id);
            }
        }
    }
}

/// `contains_value` and `all_values_for` agree: a scope lists a value for a
/// property exactly if the value is among all values for the property.
pub proof fn law_contained_values_are_all_values(
    scope: AccessScopeView,
    property: Seq<char>,
    id: Uuid,
)
    ensures
        scope_lists(scope.constraints, property, id) <==> scope_values_for(
            scope.constraints,
            property,
        ).contains(id),
    decreases scope.constraints.len(),
{
    let constraints = scope.constraints;
    if constraints.len() > 0 {
        let rest = constraints.drop_last();
        let last = constraint_values_for(constraints.last(), property);
        let all = scope_values_for(rest, property) + last;
        law_contained_values_are_all_values(
            AccessScopeView { constraints: rest, unconstrained: scope.unconstrained },
            property,
            id,
        );
        lemma_constraint_values_are_listed(constraints.last(), property, id);
        if all.contains(id) {
            let k = choose|k: int| 0 <= k < all.len() && all[k] == id;
            if k < scope_values_for(rest, property).len() {
                assert(scope_values_for(rest, property)[k] == id);
                let i = choose|i: int|
                    0 <= i < rest.len() && constraint_lists(#[trigger] rest[i], property, id);
                assert(constraint_lists(constraints[i], property, id));
            } else {
                assert(last[k - scope_values_for(rest, property).len()] == id);
                assert(constraint_lists(constraints[constraints.len() - 1], property, id));
            }
        }
        if scope_lists(constraints, property, id) {
            let i = choose|i: int|
                0 <= i < constraints.len() && constraint_lists(
                    #[trigger] constraints[i],
                    property,
                    id,
                );
            if i < rest.len() {
                assert(constraint_lists(rest[i], property, id));
                let k = choose|k: int|
                    0 <= k < scope_values_for(rest, property).len() && scope_values_for(
                        rest,
                        property,
                    )[k] == id;
                assert(all[k] == id);
            } else {
                let k = choose|k: int| 0 <= k < last.len() && last[k] == id;
                assert(all[scope_values_for(rest, property).len() + k] == id);
            }
        }
    }
}

/// Deny-all admits no row, and allow-all admits every row.
pub proof fn law_deny_all_admits_nothing(row: PropertyRow)
    ensures
        !scope_admits(AccessScopeView::deny_all(), row),
        scope_admits(AccessScopeView::allow_all(), row),
{
}

} // verus!
