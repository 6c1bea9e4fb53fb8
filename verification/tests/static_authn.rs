use authz_core::constants::{
    default_subject_id, default_tenant_id, DEFAULT_SUBJECT_ID, DEFAULT_TENANT_ID,
};
use authz_core::static_authn_plugin::{
    AuthnMode, IdentityConfig, Service, StaticAuthnPluginConfig, TokenMapping,
};
use authz_core::Uuid;

fn uuid(s: &str) -> Uuid {
    Uuid::from_u128(uuid::Uuid::parse_str(s).unwrap().as_u128())
}

fn default_config() -> StaticAuthnPluginConfig {
    StaticAuthnPluginConfig::default()
}

#[test]
fn accept_all_mode_returns_default_identity() {
    let service = Service::from_config(&default_config());

    let result = service.authenticate("any-token-value");
    assert!(result.is_some());

    let auth = result.unwrap();
    let ctx = &auth.security_context;
    assert_eq!(ctx.subject_id(), Uuid::from_u128(DEFAULT_SUBJECT_ID));
    assert_eq!(ctx.subject_tenant_id(), Some(Uuid::from_u128(DEFAULT_TENANT_ID)));
    assert_eq!(ctx.token_scopes(), &["*"]);
    assert_eq!(ctx.bearer_token(), Some("any-token-value"));
}

#[test]
fn accept_all_mode_rejects_empty_token() {
    let service = Service::from_config(&default_config());

    let result = service.authenticate("");
    assert!(result.is_none());
}

#[test]
fn static_tokens_mode_returns_mapped_identity() {
    let user_a_id = uuid("aaaaaaaa-aaaa-aaaa-aaaa-aaaaaaaaaaaa");
    let tenant_a = uuid("bbbbbbbb-bbbb-bbbb-bbbb-bbbbbbbbbbbb");

    let cfg = StaticAuthnPluginConfig {
        mode: AuthnMode::StaticTokens,
        tokens: vec![TokenMapping {
            token: "token-user-a".to_owned(),
            identity: IdentityConfig {
                subject_id: user_a_id,
                subject_tenant_id: tenant_a,
                tenant_id: None,
                token_scopes: vec!["read:data".to_owned()],
            },
        }],
        ..default_config()
    };

    let service = Service::from_config(&cfg);

    let result = service.authenticate("token-user-a");
    assert!(result.is_some());

    let auth = result.unwrap();
    let ctx = &auth.security_context;
    assert_eq!(ctx.subject_id(), user_a_id);
    assert_eq!(ctx.subject_tenant_id(), Some(tenant_a));
    assert_eq!(ctx.tenant_id(), tenant_a);
    assert_eq!(ctx.token_scopes(), &["read:data"]);
    assert_eq!(ctx.bearer_token(), Some("token-user-a"));
}

#[test]
fn static_tokens_mode_rejects_unknown_token() {
    let cfg = StaticAuthnPluginConfig {
        mode: AuthnMode::StaticTokens,
        tokens: vec![TokenMapping {
            token: "known-token".to_owned(),
            identity: IdentityConfig::default(),
        }],
        ..default_config()
    };

    let service = Service::from_config(&cfg);

    let result = service.authenticate("unknown-token");
    assert!(result.is_none());
}

#[test]
fn static_tokens_mode_rejects_empty_token() {
    let cfg = StaticAuthnPluginConfig {
        mode: AuthnMode::StaticTokens,
        tokens: vec![],
        ..default_config()
    };

    let service = Service::from_config(&cfg);

    let result = service.authenticate("");
    assert!(result.is_none());
}

#[test]
fn custom_tenant_id_in_identity() {
    let subject_tenant = uuid("aaaaaaaa-0000-0000-0000-000000000000");
    let context_tenant = uuid("bbbbbbbb-0000-0000-0000-000000000000");

    let cfg = StaticAuthnPluginConfig {
        default_identity: IdentityConfig {
            subject_tenant_id: subject_tenant,
            tenant_id: Some(context_tenant),
            ..IdentityConfig::default()
        },
        ..default_config()
    };

    let service = Service::from_config(&cfg);

    let result = service.authenticate("test").unwrap();
    let ctx = &result.security_context;
    assert_eq!(ctx.tenant_id(), context_tenant);
    assert_eq!(ctx.subject_tenant_id(), Some(subject_tenant));
}

#[test]
fn default_configuration_of_the_authentication_plugin() {
    let cfg = default_config();
    assert_eq!(cfg.vendor, "hyperspot");
    assert_eq!(cfg.priority, 100);
    assert_eq!(cfg.mode, AuthnMode::AcceptAll);
    assert_eq!(AuthnMode::default(), AuthnMode::AcceptAll);
    assert!(cfg.tokens.is_empty());
    assert_eq!(cfg.default_identity.subject_id, default_subject_id());
    assert_eq!(cfg.default_identity.subject_tenant_id, default_tenant_id());
    assert_eq!(cfg.default_identity.tenant_id, None);
    assert_eq!(cfg.default_identity.token_scopes, vec!["*"]);
    assert_ne!(default_subject_id(), default_tenant_id());
}

#[test]
fn last_mapping_of_a_token_wins() {
    let first = uuid("aaaaaaaa-aaaa-aaaa-aaaa-aaaaaaaaaaaa");
    let second = uuid("bbbbbbbb-bbbb-bbbb-bbbb-bbbbbbbbbbbb");
    let mapping = |subject: Uuid| TokenMapping {
        token: "shared".to_owned(),
        identity: IdentityConfig { subject_id: subject, ..IdentityConfig::default() },
    };
    let cfg = StaticAuthnPluginConfig {
        mode: AuthnMode::StaticTokens,
        tokens: vec![mapping(first), mapping(second)],
        ..default_config()
    };
    let auth = Service::from_config(&cfg).authenticate("shared").unwrap();
    assert_eq!(auth.security_context.subject_id(), second);
}

#[test]
fn static_tokens_mode_does_not_fall_back_to_the_default_identity() {
    let cfg = StaticAuthnPluginConfig { mode: AuthnMode::StaticTokens, ..default_config() };
    assert!(Service::from_config(&cfg).authenticate("any-token-value").is_none());
}

#[test]
fn authenticated_token_never_shows_in_debug_output() {
    let auth = Service::from_config(&default_config())
        .authenticate("very-secret-token")
        .unwrap();
    assert!(!format!("{auth:?}").contains("very-secret-token"));
    assert_eq!(auth.security_context.subject_type(), None);
}
