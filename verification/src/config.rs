//! The configuration of the gateway to the decision point.

use vstd::prelude::*;

verus! {

/// The configuration of the gateway.
#[derive(Clone, Debug)]
pub struct AuthZResolverGwConfig {
    /// The vendor by which the gateway picks a plugin.
    pub vendor: String,
}

impl Default for AuthZResolverGwConfig {
    /// Vendor `hyperspot`.
    fn default() -> (config: AuthZResolverGwConfig)
        ensures
            config.vendor@ == "hyperspot"@,
    {
        AuthZResolverGwConfig { vendor: "hyperspot".to_owned() }
    }
}

} // verus!
