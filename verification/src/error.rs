//! Failures of the call to the decision point itself.

use vstd::prelude::*;

verus! {

/// Why an evaluation could not be had from the decision point. These are
/// transport and plugin failures; a denial is not among them.
#[derive(Clone, Debug, PartialEq, Eq)]
pub enum AuthZResolverError {
    /// The caller was not allowed to ask.
    Unauthorized(String),
    /// No decision point plugin is registered.
    NoPluginAvailable,
    /// The decision point is not ready, or did not answer in time.
    ServiceUnavailable(String),
    /// Anything else went wrong.
    Internal(String),
}

} // verus!
