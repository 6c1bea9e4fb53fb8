//! Row-level authorization core: access scopes, the constraint compiler that
//! produces them from a policy decision, the enforcement point that asks for
//! the decision, and the translation of a scope into a storage condition.

pub mod access_scope;
pub mod api;
pub mod cond;
pub mod config;
pub mod constants;
pub mod constraints;
pub mod error;
pub mod http_auth;
pub mod id;
pub mod json;
pub mod models;
pub mod pep;
pub mod properties;
pub mod property_map;
pub mod route_path;
pub mod route_policy;
pub mod secret;
pub mod security_context;
pub mod sequences;
pub mod static_authn_plugin;
pub mod static_authz_plugin;
pub mod text;

pub use access_scope::{AccessScope, FilterOp, ScopeConstraint, ScopeFilter};
pub use api::{
    AuthZResolverGatewayClient, AuthZResolverGwLocalClient, AuthZResolverPluginClient,
};
pub use cond::{build_scope_condition, ColumnIn, Condition, PropertyColumns};
pub use constraints::{Constraint, EqPredicate, InPredicate, Predicate};
pub use error::AuthZResolverError;
pub use id::Uuid;
pub use models::{
    Action, BarrierMode, Capability, Context, EvaluationRequest, EvaluationResponse, Resource,
    Subject, TenantContext, TenantMode,
};
pub use pep::{AccessRequest, EnforcerError, PolicyEnforcer, ResourceType};
pub use property_map::PropertyMap;
pub use secret::BearerToken;
pub use security_context::SecurityContext;
