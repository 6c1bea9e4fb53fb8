//! The authenticated caller, as authentication hands it to authorization.

use vstd::prelude::*;

use crate::id::Uuid;
use crate::secret::{opt_token_text, BearerToken};
use crate::text::{opt_text, texts};

verus! {

/// Who calls: the subject, its tenant, the scopes of its token, and the
/// token itself. A context is made once, by authentication, and never
/// changed afterwards.
#[derive(Clone, Debug)]
pub struct SecurityContext {
    tenant_id: Uuid,
    subject_id: Uuid,
    subject_tenant_id: Option<Uuid>,
    subject_type: Option<String>,
    token_scopes: Vec<String>,
    bearer_token: Option<BearerToken>,
}

/// What a security context says.
pub struct SecurityContextView {
    pub tenant_id: Uuid,
    pub subject_id: Uuid,
    pub subject_tenant_id: Option<Uuid>,
    pub subject_type: Option<Seq<char>>,
    pub token_scopes: Seq<Seq<char>>,
    pub bearer_token: Option<Seq<char>>,
}

impl SecurityContextView {
    /// The context of a caller that did not authenticate: nil identifiers,
    /// no tenant, no scopes, no token.
    pub open spec fn anonymous() -> SecurityContextView {
        SecurityContextView {
            tenant_id: Uuid::spec_nil(),
            subject_id: Uuid::spec_nil(),
            subject_tenant_id: None,
            subject_type: None,
            token_scopes: Seq::empty(),
            bearer_token: None,
        }
    }
}

impl View for SecurityContext {
    type V = SecurityContextView;

    closed spec fn view(&self) -> SecurityContextView {
        SecurityContextView {
            tenant_id: self.tenant_id,
            subject_id: self.subject_id,
            subject_tenant_id: self.subject_tenant_id,
            subject_type: opt_text(self.subject_type),
            token_scopes: texts(self.token_scopes@),
            bearer_token: opt_token_text(self.bearer_token),
        }
    }
}

impl SecurityContext {
    /// A builder that starts from the anonymous context.
    pub fn builder() -> (builder: SecurityContextBuilder)
        ensures
            builder@ == SecurityContextView::anonymous(),
    {
        SecurityContextBuilder { context: SecurityContext::anonymous() }
    }

    /// The context of a caller that did not authenticate.
    pub fn anonymous() -> (context: SecurityContext)
        ensures
            context@ == SecurityContextView::anonymous(),
    {
        let context = SecurityContext {
            tenant_id: Uuid::nil(),
            subject_id: Uuid::nil(),
            subject_tenant_id: None,
            subject_type: None,
            token_scopes: Vec::new(),
            bearer_token: None,
        };
        proof {
            assert(texts(context.token_scopes@) =~= Seq::<Seq<char>>::empty());
        }
        context
    }

    /// The tenant in whose context the caller acts.
    pub fn tenant_id(&self) -> (id: Uuid)
        ensures
            id == self@.tenant_id,
    {
        self.tenant_id
    }

    /// The subject's identifier.
    pub fn subject_id(&self) -> (id: Uuid)
        ensures
            id == self@.subject_id,
    {
        self.subject_id
    }

    /// The tenant in which the subject lives; none for an anonymous caller.
    pub fn subject_tenant_id(&self) -> (id: Option<Uuid>)
        ensures
            id == self@.subject_tenant_id,
    {
        self.subject_tenant_id
    }

    /// The kind of subject, if it is known.
    pub fn subject_type(&self) -> (kind: Option<&str>)
        ensures
            match kind {
                Some(text) => self@.subject_type == Some(text@),
                None => self@.subject_type is None,
            },
    {
        match &self.subject_type {
            Some(kind) => Some(kind.as_str()),
            None => None,
        }
    }

    /// The scopes of the caller's token, in the order in which they came.
    pub fn token_scopes(&self) -> (scopes: &[String])
        ensures
            texts(scopes@) == self@.token_scopes,
    {
        self.token_scopes.as_slice()
    }

    /// The caller's bearer token, if it has one.
    pub fn bearer_token(&self) -> (token: Option<&str>)
        ensures
            match token {
                Some(text) => self@.bearer_token == Some(text@),
                None => self@.bearer_token is None,
            },
    {
        match &self.bearer_token {
            Some(token) => Some(token.expose()),
            None => None,
        }
    }
}

/// Builds a security context field by field.
#[derive(Clone, Debug)]
pub struct SecurityContextBuilder {
    context: SecurityContext,
}

impl View for SecurityContextBuilder {
    type V = SecurityContextView;

    closed spec fn view(&self) -> SecurityContextView {
        self.context@
    }
}

impl SecurityContextBuilder {
    /// Sets the tenant in whose context the caller acts.
    pub fn tenant_id(self, id: Uuid) -> (builder: SecurityContextBuilder)
        ensures
            builder@ == (SecurityContextView { tenant_id: id, ..self@ }),
    {
        let mut context = self.context;
        context.tenant_id = id;
        SecurityContextBuilder { context }
    }

    /// Sets the subject's identifier.
    pub fn subject_id(self, id: Uuid) -> (builder: SecurityContextBuilder)
        ensures
            builder@ == (SecurityContextView { subject_id: id, ..self@ }),
    {
        let mut context = self.context;
        context.subject_id = id;
        SecurityContextBuilder { context }
    }

    /// Sets the tenant in which the subject lives.
    pub fn subject_tenant_id(self, id: Uuid) -> (builder: SecurityContextBuilder)
        ensures
            builder@ == (SecurityContextView { subject_tenant_id: Some(id), ..self@ }),
    {
        let mut context = self.context;
        context.subject_tenant_id = Some(id);
        SecurityContextBuilder { context }
    }

    /// Sets the kind of subject.
    pub fn subject_type(self, kind: &str) -> (builder: SecurityContextBuilder)
        ensures
            builder@ == (SecurityContextView { subject_type: Some(kind@), ..self@ }),
    {
        let mut context = self.context;
        context.subject_type = Some(kind.to_owned());
        SecurityContextBuilder { context }
    }

    /// Sets the scopes of the caller's token.
    pub fn token_scopes(self, scopes: Vec<String>) -> (builder: SecurityContextBuilder)
        ensures
            builder@ == (SecurityContextView { token_scopes: texts(scopes@), ..self@ }),
    {
        let mut context = self.context;
        context.token_scopes = scopes;
        SecurityContextBuilder { context }
    }

    /// Sets the caller's bearer token.
    pub fn bearer_token(self, token: String) -> (builder: SecurityContextBuilder)
        ensures
            builder@ == (SecurityContextView { bearer_token: Some(token@), ..self@ }),
    {
        let mut context = self.context;
        context.bearer_token = Some(BearerToken::new(token.as_str()));
        SecurityContextBuilder { context }
    }

    /// The context as it was built.
    pub fn build(self) -> (context: SecurityContext)
        ensures
            context@ == self@,
    {
        self.context
    }
}

} // verus!
