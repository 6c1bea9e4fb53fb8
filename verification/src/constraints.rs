//! Row-level constraints as a decision point returns them.
//!
//! A response carries a list of constraints, which are OR-ed. A constraint is
//! a list of predicates, which are AND-ed. A predicate compares one named,
//! identifier-valued resource property.

use vstd::prelude::*;

use crate::id::Uuid;

verus! {

/// `property == value`.
#[derive(Clone, Debug, PartialEq, Eq)]
pub struct EqPredicate {
    /// The resource property that is compared.
    pub property: String,
    /// The value that the property must have.
    pub value: Uuid,
}

/// `property IN (values)`.
#[derive(Clone, Debug, PartialEq, Eq)]
pub struct InPredicate {
    /// The resource property that is compared.
    pub property: String,
    /// The values of which the property must have one.
    pub values: Vec<Uuid>,
}

/// A predicate on one resource property.
#[derive(Clone, Debug, PartialEq, Eq)]
pub enum Predicate {
    /// Equality with a single value.
    Eq(EqPredicate),
    /// Membership in a set of values.
    In(InPredicate),
}

/// A conjunction of predicates: a row satisfies the constraint if and only
/// if it satisfies every predicate.
#[derive(Clone, Debug, PartialEq, Eq)]
pub struct Constraint {
    /// The predicates, which are AND-ed.
    pub predicates: Vec<Predicate>,
}

impl Predicate {
    /// The property that the predicate is on.
    pub open spec fn spec_property(self) -> Seq<char> {
        match self {
            Predicate::Eq(eq) => eq.property@,
            Predicate::In(within) => within.property@,
        }
    }

    /// The values that the predicate allows: the one value of an equality,
    /// the listed values of a membership.
    pub open spec fn spec_values(self) -> Seq<Uuid> {
        match self {
            Predicate::Eq(eq) => seq![eq.value],
            Predicate::In(within) => within.values@,
        }
    }

    /// The property that the predicate is on.
    pub fn property(&self) -> (property: &str)
        ensures
            property@ == self.spec_property(),
    {
        match self {
            Predicate::Eq(eq) => eq.property.as_str(),
            Predicate::In(within) => within.property.as_str(),
        }
    }
}

} // verus!
