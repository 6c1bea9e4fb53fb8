//! The enforcement point: it builds the question, asks the decision point,
//! and compiles the answer into an access scope.

pub mod compiler;
pub mod enforcer;
pub mod request_builder;
pub mod with_reference;

pub use compiler::{compile_to_access_scope, ConstraintCompileError};
pub use enforcer::{AccessRequest, EnforcerError, PolicyEnforcer, ResourceType};
pub use request_builder::build_evaluation_request;
