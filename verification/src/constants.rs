//! Identifiers that stand in where no real identity is configured.

use vstd::prelude::*;

use crate::id::Uuid;

verus! {

/// The 128-bit value of the default identity's tenant.
pub const DEFAULT_TENANT_ID: u128 = 1;

/// The 128-bit value of the default identity's subject.
pub const DEFAULT_SUBJECT_ID: u128 = 2;

/// The tenant of the default identity.
pub fn default_tenant_id() -> (id: Uuid)
    ensures
        id == Uuid::with_bits(DEFAULT_TENANT_ID),
{
    Uuid::from_u128(DEFAULT_TENANT_ID)
}

/// The subject of the default identity.
pub fn default_subject_id() -> (id: Uuid)
    ensures
        id == Uuid::with_bits(DEFAULT_SUBJECT_ID),
{
    Uuid::from_u128(DEFAULT_SUBJECT_ID)
}

} // verus!
