//! The static authentication plugin: it maps bearer tokens to configured
//! identities, either every token to one default identity or listed tokens
//! to their own.

use vstd::prelude::*;

use crate::constants::{default_subject_id, default_tenant_id, DEFAULT_SUBJECT_ID, DEFAULT_TENANT_ID};
use crate::id::Uuid;
use crate::security_context::{SecurityContext, SecurityContextView};
use crate::text::{copy_strings, str_eq, texts};

verus! {

// ── Configuration ───────────────────────────────────────────────────

/// How tokens are mapped to identities.
#[derive(Clone, Copy, Debug, PartialEq, Eq, Structural)]
pub enum AuthnMode {
    /// Any token that is not empty maps to the default identity.
    AcceptAll,
    /// Only the listed tokens map to an identity, each to its own.
    StaticTokens,
}

impl Default for AuthnMode {
    /// `AcceptAll`.
    fn default() -> (mode: AuthnMode)
        ensures
            mode == AuthnMode::AcceptAll,
    {
        AuthnMode::AcceptAll
    }
}

/// A configured identity.
#[derive(Clone, Debug, PartialEq, Eq)]
pub struct IdentityConfig {
    /// The subject.
    pub subject_id: Uuid,
    /// The tenant in which the subject lives.
    pub subject_tenant_id: Uuid,
    /// The tenant in whose context the subject acts, where it is not the
    /// subject's own.
    pub tenant_id: Option<Uuid>,
    /// The scopes of the subject's token.
    pub token_scopes: Vec<String>,
}

/// What a configured identity says.
pub struct IdentityView {
    pub subject_id: Uuid,
    pub subject_tenant_id: Uuid,
    pub tenant_id: Option<Uuid>,
    pub token_scopes: Seq<Seq<char>>,
}

impl View for IdentityConfig {
    type V = IdentityView;

    open spec fn view(&self) -> IdentityView {
        IdentityView {
            subject_id: self.subject_id,
            subject_tenant_id: self.subject_tenant_id,
            tenant_id: self.tenant_id,
            token_scopes: texts(self.token_scopes@),
        }
    }
}

impl IdentityView {
    /// The default identity: the default subject in the default tenant,
    /// with the one scope `*`.
    pub open spec fn standard() -> IdentityView {
        IdentityView {
            subject_id: Uuid::with_bits(DEFAULT_SUBJECT_ID),
            subject_tenant_id: Uuid::with_bits(DEFAULT_TENANT_ID),
            tenant_id: None,
            token_scopes: seq!["*"@],
        }
    }
}

impl Default for IdentityConfig {
    /// The default identity.
    fn default() -> (identity: IdentityConfig)
        ensures
            identity@ == IdentityView::standard(),
    {
        let mut token_scopes: Vec<String> = Vec::new();
        token_scopes.push("*".to_owned());
        proof {
            assert(texts(token_scopes@) =~= seq!["*"@]);
        }
        IdentityConfig {
            subject_id: default_subject_id(),
            subject_tenant_id: default_tenant_id(),
            tenant_id: None,
            token_scopes,
        }
    }
}

impl IdentityConfig {
    /// A copy of the identity.
    pub fn duplicate(&self) -> (copy: IdentityConfig)
        ensures
            copy@ == self@,
    {
        IdentityConfig {
            subject_id: self.subject_id,
            subject_tenant_id: self.subject_tenant_id,
            tenant_id: self.tenant_id,
            token_scopes: copy_strings(self.token_scopes.as_slice()),
        }
    }
}

/// A token and the identity that it maps to.
#[derive(Clone, Debug, PartialEq, Eq)]
pub struct TokenMapping {
    /// The bearer token.
    pub token: String,
    /// The identity of its bearer.
    pub identity: IdentityConfig,
}

/// The configuration of the plugin.
#[derive(Clone, Debug)]
pub struct StaticAuthnPluginConfig {
    /// The vendor under which the plugin registers.
    pub vendor: String,
    /// The priority of the plugin; a lower number goes first.
    pub priority: i16,
    /// How tokens are mapped to identities.
    pub mode: AuthnMode,
    /// The identity of every bearer in `AcceptAll` mode.
    pub default_identity: IdentityConfig,
    /// The tokens of `StaticTokens` mode.
    pub tokens: Vec<TokenMapping>,
}

impl Default for StaticAuthnPluginConfig {
    /// Vendor `hyperspot`, priority 100, every token accepted as the
    /// default identity, no listed token.
    fn default() -> (config: StaticAuthnPluginConfig)
        ensures
            config.vendor@ == "hyperspot"@,
            config.priority == 100,
            config.mode == AuthnMode::AcceptAll,
            config.default_identity@ == IdentityView::standard(),
            config.tokens@.len() == 0,
    {
        StaticAuthnPluginConfig {
            vendor: "hyperspot".to_owned(),
            priority: 100,
            mode: AuthnMode::AcceptAll,
            default_identity: IdentityConfig::default(),
            tokens: Vec::new(),
        }
    }
}

// ── What authentication gives ───────────────────────────────────────

/// The result of an authentication: the security context of the caller.
#[derive(Clone, Debug)]
pub struct AuthenticationResult {
    /// Who the caller is.
    pub security_context: SecurityContext,
}

/// The identity to which the listed tokens map `token`: that of the last
/// mapping of the token, if there is one.
pub open spec fn mapped_identity(tokens: Seq<TokenMapping>, token: Seq<char>) -> Option<
    IdentityView,
>
    decreases tokens.len(),
{
    if tokens.len() == 0 {
        None
    } else if tokens.last().token@ == token {
        Some(tokens.last().identity@)
    } else {
        mapped_identity(tokens.drop_last(), token)
    }
}

/// The security context of an identity that came with a token: the
/// identity's subject, tenant and scopes, the token, and as context tenant
/// the configured one or else the subject's.
pub open spec fn identity_context(identity: IdentityView, token: Seq<char>) -> SecurityContextView {
    SecurityContextView {
        tenant_id: match identity.tenant_id {
            Some(tenant) => tenant,
            None => identity.subject_tenant_id,
        },
        subject_id: identity.subject_id,
        subject_tenant_id: Some(identity.subject_tenant_id),
        subject_type: None,
        token_scopes: identity.token_scopes,
        bearer_token: Some(token),
    }
}

/// The identity of the bearer of `token`: none for the empty token; the
/// default identity in `AcceptAll` mode; the mapped identity, if there is
/// one, in `StaticTokens` mode.
pub open spec fn authenticated_identity(
    mode: AuthnMode,
    default_identity: IdentityView,
    tokens: Seq<TokenMapping>,
    token: Seq<char>,
) -> Option<IdentityView> {
    if token.len() == 0 {
        None
    } else {
        match mode {
            AuthnMode::AcceptAll => Some(default_identity),
            AuthnMode::StaticTokens => mapped_identity(tokens, token),
        }
    }
}

/// The security context of an identity that came with a token.
fn build_result(identity: &IdentityConfig, bearer_token: &str) -> (result: AuthenticationResult)
    ensures
        result.security_context@ == identity_context(identity@, bearer_token@),
{
    let tenant_id = match identity.tenant_id {
        Some(tenant) => tenant,
        None => identity.subject_tenant_id,
    };
    let security_context = SecurityContext::builder().tenant_id(tenant_id).subject_id(
        identity.subject_id,
    ).subject_tenant_id(identity.subject_tenant_id).token_scopes(
        copy_strings(identity.token_scopes.as_slice()),
    ).bearer_token(bearer_token.to_owned()).build();
    AuthenticationResult { security_context }
}

// ── The service ─────────────────────────────────────────────────────

/// The static authentication service.
#[derive(Clone, Debug)]
pub struct Service {
    mode: AuthnMode,
    default_identity: IdentityConfig,
    tokens: Vec<TokenMapping>,
}

impl Service {
    /// The mode of the service.
    pub closed spec fn spec_mode(&self) -> AuthnMode {
        self.mode
    }

    /// The default identity of the service.
    pub closed spec fn spec_default_identity(&self) -> IdentityView {
        self.default_identity@
    }

    /// The token mappings of the service.
    pub closed spec fn spec_tokens(&self) -> Seq<TokenMapping> {
        self.tokens@
    }

    /// The identity to which the service maps `token`.
    pub open spec fn spec_identity(&self, token: Seq<char>) -> Option<IdentityView> {
        authenticated_identity(
            self.spec_mode(),
            self.spec_default_identity(),
            self.spec_tokens(),
            token,
        )
    }

    /// The service of a configuration: it maps every token as the
    /// configuration does.
    pub fn from_config(cfg: &StaticAuthnPluginConfig) -> (service: Service)
        ensures
            service.spec_mode() == cfg.mode,
            service.spec_default_identity() == cfg.default_identity@,
            forall|token: Seq<char>|
                #[trigger] mapped_identity(service.spec_tokens(), token) == mapped_identity(
                    cfg.tokens@,
                    token,
                ),
    {
        let mut tokens: Vec<TokenMapping> = Vec::new();
        let mut i: usize = 0;
        while i < cfg.tokens.len()
            invariant
                i <= cfg.tokens.len(),
                tokens@.len() == i,
                forall|m: int|
                    0 <= m < i ==> (#[trigger] tokens@[m]).token@ == cfg.tokens@[m].token@
                        && tokens@[m].identity@ == cfg.tokens@[m].identity@,
            decreases cfg.tokens.len() - i,
        {
            let mapping = &cfg.tokens[i];
            tokens.push(
                TokenMapping { token: mapping.token.clone(), identity: mapping.identity.duplicate() },
            );
            i += 1;
        }
        proof {
            assert forall|token: Seq<char>|
                #[trigger] mapped_identity(tokens@, token) == mapped_identity(
                    cfg.tokens@,
                    token,
                ) by {
                lemma_same_mappings(tokens@, cfg.tokens@, token);
            }
        }
        Service { mode: cfg.mode, default_identity: cfg.default_identity.duplicate(), tokens }
    }

    /// The index of the last mapping of `token`.
    fn find(&self, token: &str) -> (found: Option<usize>)
        ensures
            match found {
                Some(i) => i < self.tokens@.len() && mapped_identity(self.tokens@, token@) == Some(
                    self.tokens@[i as int].identity@,
                ),
                None => mapped_identity(self.tokens@, token@) is None,
            },
    {
        let mut i: usize = self.tokens.len();
        proof {
            assert(self.tokens@.take(i as int) == self.tokens@);
        }
        while i > 0
            invariant
                i <= self.tokens@.len(),
                mapped_identity(self.tokens@, token@) == mapped_identity(
                    self.tokens@.take(i as int),
                    token@,
                ),
            decreases i,
        {
            i -= 1;
            proof {
                assert(self.tokens@.take(i + 1).last() == self.tokens@[i as int]);
                assert(self.tokens@.take(i + 1).drop_last() == self.tokens@.take(i as int));
            }
            if str_eq(self.tokens[i].token.as_str(), token) {
                return Some(i);
            }
        }
        None
    }

    /// Authenticates a bearer token. The empty token is no one's. In
    /// `AcceptAll` mode any other token is the default identity's; in
    /// `StaticTokens` mode a token is the identity's to which it is mapped,
    /// and no one's if it is not mapped.
    pub fn authenticate(&self, bearer_token: &str) -> (result: Option<AuthenticationResult>)
        ensures
            match result {
                Some(authenticated) => self.spec_identity(bearer_token@) is Some
                    && authenticated.security_context@ == identity_context(
                    self.spec_identity(bearer_token@)->Some_0,
                    bearer_token@,
                ),
                None => self.spec_identity(bearer_token@) is None,
            },
    {
        if bearer_token.is_empty() {
            return None;
        }
        match self.mode {
            AuthnMode::AcceptAll => Some(build_result(&self.default_identity, bearer_token)),
            AuthnMode::StaticTokens => match self.find(bearer_token) {
                Some(i) => Some(build_result(&self.tokens[i].identity, bearer_token)),
                None => None,
            },
        }
    }
}

/// Mapping lists with the same tokens and identities map every token
/// alike.
proof fn lemma_same_mappings(a: Seq<TokenMapping>, b: Seq<TokenMapping>, token: Seq<char>)
    requires
        a.len() == b.len(),
        forall|m: int|
            0 <= m < a.len() ==> (#[trigger] a[m]).token@ == b[m].token@ && a[m].identity@
                == b[m].identity@,
    ensures
        mapped_identity(a, token) == mapped_identity(b, token),
    decreases a.len(),
{
    if a.len() > 0 {
        assert(a.last().token@ == b.last().token@ && a.last().identity@ == b.last().identity@);
        lemma_same_mappings(a.drop_last(), b.drop_last(), token);
    }
}

} // verus!
