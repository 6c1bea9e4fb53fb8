//! Well-known authorization property names, shared by the constraint
//! compiler and by the entities that map properties to storage columns.

use vstd::prelude::*;

verus! {

/// The tenant that owns a row.
pub const OWNER_TENANT_ID: &'static str = "owner_tenant_id";

/// The identity of the row itself.
pub const RESOURCE_ID: &'static str = "id";

/// The subject that owns a row.
pub const OWNER_ID: &'static str = "owner_id";

} // verus!
