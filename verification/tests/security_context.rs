use authz_core::models::{BarrierMode, TenantContext, TenantMode};
use authz_core::secret::BearerToken;
use authz_core::security_context::SecurityContext;
use authz_core::Uuid;

fn id(text: &str) -> Uuid {
    Uuid::from_u128(uuid::Uuid::parse_str(text).unwrap().as_u128())
}

#[test]
fn anonymous_context_has_nothing() {
    let ctx = SecurityContext::anonymous();
    assert!(ctx.subject_id().is_nil());
    assert!(ctx.tenant_id().is_nil());
    assert_eq!(ctx.subject_tenant_id(), None);
    assert_eq!(ctx.subject_type(), None);
    assert!(ctx.token_scopes().is_empty());
    assert_eq!(ctx.bearer_token(), None);
}

#[test]
fn builder_starts_from_the_anonymous_context() {
    let ctx = SecurityContext::builder().build();
    assert!(ctx.subject_id().is_nil());
    assert_eq!(ctx.subject_tenant_id(), None);
    assert_eq!(ctx.bearer_token(), None);
}

#[test]
fn builder_sets_each_field() {
    let subject = id("22222222-2222-2222-2222-222222222222");
    let tenant = id("11111111-1111-1111-1111-111111111111");
    let context_tenant = id("33333333-3333-3333-3333-333333333333");
    let ctx = SecurityContext::builder()
        .tenant_id(context_tenant)
        .subject_id(subject)
        .subject_tenant_id(tenant)
        .subject_type("service")
        .token_scopes(vec!["b".to_owned(), "a".to_owned()])
        .bearer_token("tok".to_owned())
        .build();
    assert_eq!(ctx.tenant_id(), context_tenant);
    assert_eq!(ctx.subject_id(), subject);
    assert_eq!(ctx.subject_tenant_id(), Some(tenant));
    assert_eq!(ctx.subject_type(), Some("service"));
    assert_eq!(ctx.token_scopes(), &["b", "a"]);
    assert_eq!(ctx.bearer_token(), Some("tok"));
}

#[test]
fn cloned_context_keeps_the_token_and_hides_it() {
    let ctx = SecurityContext::builder().bearer_token("keep-me-hidden".to_owned()).build();
    let copy = ctx.clone();
    assert_eq!(copy.bearer_token(), Some("keep-me-hidden"));
    assert!(!format!("{copy:?}").contains("keep-me-hidden"));
}

#[test]
fn bearer_token_keeps_its_text_and_hides_it() {
    let token = BearerToken::new("hunter2");
    assert_eq!(token.expose(), "hunter2");
    assert_eq!(token.clone().expose(), "hunter2");
    let shown = format!("{token:?}");
    assert!(!shown.contains("hunter2"));
    assert!(shown.contains("REDACTED"));
    assert_eq!(BearerToken::new("").expose(), "");
}

#[test]
fn tenant_context_defaults() {
    let context = TenantContext::default();
    assert_eq!(context.mode, TenantMode::Subtree);
    assert_eq!(context.root_id, None);
    assert_eq!(context.barrier_mode, BarrierMode::Respect);
    assert_eq!(context.tenant_status, None);
    assert_eq!(TenantMode::default(), TenantMode::Subtree);
    assert_eq!(BarrierMode::default(), BarrierMode::Respect);

    let full = TenantContext {
        mode: TenantMode::RootOnly,
        root_id: Some(Uuid::from_u128(9)),
        barrier_mode: BarrierMode::Ignore,
        tenant_status: Some(vec!["active".to_owned(), "suspended".to_owned()]),
    };
    assert_eq!(full.duplicate(), full);
}
