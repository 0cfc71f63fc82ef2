//! Copies of schemas.

use crate::json::copy_opt_json;
use crate::plexus::credential_envelope::AttachmentSite;
use crate::plexus::schema;
use crate::plexus::schema::{
    ChildSummary, CredentialFieldDecl, CredentialIssuer, CredentialKind, CredentialMetadata, DeprecationInfo,
    MethodRole, MethodSchema, ParamSchema, PluginSchema, RequiredCredential,
};
use crate::plexus::told;
use crate::plexus::wire;
use crate::text::{copy_opt, copy_texts};
use vstd::prelude::*;

verus! {

/// Whether a method is a copy of another: it says the same to a client, and it is open to
/// everybody where the other is.
pub open spec fn copies_method(a: MethodSchema, b: MethodSchema) -> bool {
    told::same_method(a, b) && a.public == b.public
}

/// Whether a schema is a copy of another.
pub open spec fn copies_plugin(a: PluginSchema, b: PluginSchema) -> bool {
    &&& told::same_plugin(a, b)
    &&& forall|i: int| 0 <= i < a.methods@.len() ==> #[trigger] copies_method(a.methods@[i], b.methods@[i])
}

impl MethodRole {
    /// A copy.
    pub fn copy(&self) -> (r: Self)
        ensures
            r == *self,
    {
        match self {
            MethodRole::Rpc => MethodRole::Rpc,
            MethodRole::StaticChild => MethodRole::StaticChild,
            MethodRole::DynamicChild { list_method, search_method } => MethodRole::DynamicChild {
                list_method: copy_opt(list_method),
                search_method: copy_opt(search_method),
            },
        }
    }
}

impl DeprecationInfo {
    /// A copy.
    pub fn copy(&self) -> (r: Self)
        ensures
            r == *self,
    {
        DeprecationInfo {
            since: self.since.clone(),
            removed_in: self.removed_in.clone(),
            message: self.message.clone(),
        }
    }
}

fn copy_opt_deprecation(d: &Option<DeprecationInfo>) -> (r: Option<DeprecationInfo>)
    ensures
        r == *d,
{
    match d {
        Some(info) => Some(info.copy()),
        None => None,
    }
}

impl ParamSchema {
    /// A copy.
    pub fn copy(&self) -> (r: Self)
        ensures
            r == *self,
    {
        ParamSchema { name: self.name.clone(), deprecation: copy_opt_deprecation(&self.deprecation) }
    }
}

impl CredentialKind {
    /// A copy.
    pub fn copy(&self) -> (r: Self)
        ensures
            r == *self,
    {
        match self {
            CredentialKind::Bearer => CredentialKind::Bearer,
            CredentialKind::Cookie => CredentialKind::Cookie,
            CredentialKind::OauthAccess => CredentialKind::OauthAccess,
            CredentialKind::OauthRefresh => CredentialKind::OauthRefresh,
            CredentialKind::OidcId => CredentialKind::OidcId,
            CredentialKind::AwsSts => CredentialKind::AwsSts,
            CredentialKind::Macaroon => CredentialKind::Macaroon,
            CredentialKind::Other { name } => CredentialKind::Other { name: name.clone() },
        }
    }
}

impl CredentialMetadata {
    /// A copy.
    pub fn copy(&self) -> (r: Self)
        ensures
            told::same_metadata(r, *self),
    {
        CredentialMetadata {
            kind: self.kind.copy(),
            attach_as: self.attach_as.copy(),
            scheme: copy_opt(&self.scheme),
            scopes: copy_texts(&self.scopes),
            expires_at: copy_opt(&self.expires_at),
            refresh_via: copy_opt(&self.refresh_via),
            revoke_via: copy_opt(&self.revoke_via),
            issuer: CredentialIssuer { origin: self.issuer.origin.clone(), method: self.issuer.method.clone() },
            sensitive: self.sensitive,
        }
    }
}

impl CredentialFieldDecl {
    /// A copy.
    pub fn copy(&self) -> (r: Self)
        ensures
            told::same_field(r, *self),
    {
        CredentialFieldDecl {
            field_path: copy_texts(&self.field_path),
            variant_tag: copy_opt(&self.variant_tag),
            metadata: self.metadata.copy(),
        }
    }
}

impl RequiredCredential {
    /// A copy.
    pub fn copy(&self) -> (r: Self)
        ensures
            told::same_required(r, *self),
    {
        RequiredCredential {
            kind: match &self.kind {
                Some(kind) => Some(kind.copy()),
                None => None,
            },
            scopes: copy_texts(&self.scopes),
            site_hint: match &self.site_hint {
                Some(site) => Some(site.copy()),
                None => None,
            },
        }
    }
}

fn copy_params(v: &Vec<ParamSchema>) -> (r: Vec<ParamSchema>)
    ensures
        r@ == v@,
{
    let mut out: Vec<ParamSchema> = Vec::new();
    let mut i: usize = 0;
    while i < v.len()
        invariant
            i <= v.len(),
            out@ == v@.take(i as int),
        decreases v.len() - i,
    {
        assert(v@.take(i + 1) =~= v@.take(i as int).push(v@[i as int]));
        out.push(v[i].copy());
        i += 1;
    }
    assert(v@.take(v@.len() as int) =~= v@);
    out
}

fn copy_fields(v: &Vec<CredentialFieldDecl>) -> (r: Vec<CredentialFieldDecl>)
    ensures
        r@.len() == v@.len(),
        forall|i: int| 0 <= i < r@.len() ==> #[trigger] told::same_field(r@[i], v@[i]),
{
    let mut out: Vec<CredentialFieldDecl> = Vec::new();
    let mut i: usize = 0;
    while i < v.len()
        invariant
            i <= v.len(),
            out@.len() == i,
            forall|j: int| 0 <= j < i ==> #[trigger] told::same_field(out@[j], v@[j]),
        decreases v.len() - i,
    {
        out.push(v[i].copy());
        i += 1;
    }
    out
}

impl MethodSchema {
    /// A copy.
    pub fn copy(&self) -> (r: Self)
        ensures
            copies_method(r, *self),
    {
        MethodSchema {
            name: self.name.clone(),
            description: self.description.clone(),
            hash: self.hash.clone(),
            params: copy_opt_json(&self.params),
            returns: copy_opt_json(&self.returns),
            streaming: self.streaming,
            bidirectional: self.bidirectional,
            http_method: self.http_method,
            request_type: copy_opt_json(&self.request_type),
            response_type: copy_opt_json(&self.response_type),
            role: self.role.copy(),
            deprecation: copy_opt_deprecation(&self.deprecation),
            return_shape: self.return_shape,
            params_meta: copy_params(&self.params_meta),
            credentials: copy_fields(&self.credentials),
            requires_credential: match &self.requires_credential {
                Some(required) => Some(required.copy()),
                None => None,
            },
            public: self.public,
        }
    }
}

impl ChildSummary {
    /// A copy.
    pub fn copy(&self) -> (r: Self)
        ensures
            r == *self,
    {
        ChildSummary {
            namespace: self.namespace.clone(),
            description: self.description.clone(),
            hash: self.hash.clone(),
        }
    }
}

fn copy_opt_children(v: &Option<Vec<ChildSummary>>) -> (r: Option<Vec<ChildSummary>>)
    ensures
        match (r, *v) {
            (Some(x), Some(y)) => schema::child_views(x@) == schema::child_views(y@),
            (None, None) => true,
            _ => false,
        },
{
    match v {
        None => None,
        Some(kids) => {
            let mut out: Vec<ChildSummary> = Vec::new();
            let mut i: usize = 0;
            while i < kids.len()
                invariant
                    i <= kids.len(),
                    out@ == kids@.take(i as int),
                decreases kids.len() - i,
            {
                assert(kids@.take(i + 1) =~= kids@.take(i as int).push(kids@[i as int]));
                out.push(kids[i].copy());
                i += 1;
            }
            assert(kids@.take(kids@.len() as int) =~= kids@);
            Some(out)
        },
    }
}

impl PluginSchema {
    /// A copy.
    pub fn copy(&self) -> (r: Self)
        ensures
            copies_plugin(r, *self),
    {
        let mut methods: Vec<MethodSchema> = Vec::new();
        let mut i: usize = 0;
        while i < self.methods.len()
            invariant
                i <= self.methods.len(),
                methods@.len() == i,
                forall|j: int| 0 <= j < i ==> #[trigger] copies_method(methods@[j], self.methods@[j]),
            decreases self.methods.len() - i,
        {
            methods.push(self.methods[i].copy());
            i += 1;
        }
        proof {
            assert forall|j: int| 0 <= j < methods@.len() implies #[trigger] told::same_method(
                methods@[j],
                self.methods@[j],
            ) by {
                assert(copies_method(methods@[j], self.methods@[j]));
            }
        }
        PluginSchema {
            namespace: self.namespace.clone(),
            version: self.version.clone(),
            description: self.description.clone(),
            long_description: copy_opt(&self.long_description),
            self_hash: self.self_hash.clone(),
            children_hash: copy_opt(&self.children_hash),
            hash: self.hash.clone(),
            methods,
            children: copy_opt_children(&self.children),
            request: copy_opt_json(&self.request),
            deprecation: copy_opt_deprecation(&self.deprecation),
        }
    }
}

proof fn lemma_same_kind(a: CredentialKind, b: CredentialKind)
    requires
        told::same_kind(a, b),
    ensures
        wire::kind_json(a) == wire::kind_json(b),
{
}

proof fn lemma_same_site(a: AttachmentSite, b: AttachmentSite)
    requires
        told::same_site(a, b),
    ensures
        wire::site_json(a) == wire::site_json(b),
{
}

proof fn lemma_same_metadata(a: CredentialMetadata, b: CredentialMetadata)
    requires
        told::same_metadata(a, b),
    ensures
        wire::metadata_json(a) == wire::metadata_json(b),
{
    lemma_same_kind(a.kind, b.kind);
    lemma_same_site(a.attach_as, b.attach_as);
    assert(wire::text_or_null(a.scheme) == wire::text_or_null(b.scheme));
    assert(wire::text_or_null(a.expires_at) == wire::text_or_null(b.expires_at));
    assert(wire::text_or_null(a.refresh_via) == wire::text_or_null(b.refresh_via));
    assert(wire::text_or_null(a.revoke_via) == wire::text_or_null(b.revoke_via));
    assert(wire::issuer_json(a.issuer) == wire::issuer_json(b.issuer));
}

proof fn lemma_same_fields(a: Seq<CredentialFieldDecl>, b: Seq<CredentialFieldDecl>)
    requires
        a.len() == b.len(),
        forall|i: int| 0 <= i < a.len() ==> #[trigger] told::same_field(a[i], b[i]),
    ensures
        wire::some_fields(a) == wire::some_fields(b),
{
    assert forall|i: int| 0 <= i < a.len() implies wire::field_json(#[trigger] a[i]) == wire::field_json(b[i]) by {
        assert(told::same_field(a[i], b[i]));
        lemma_same_metadata(a[i].metadata, b[i].metadata);
        assert(wire::some_text(a[i].variant_tag) == wire::some_text(b[i].variant_tag));
    }
    assert(Seq::new(a.len(), |i: int| wire::field_json(a[i])) =~= Seq::new(b.len(), |i: int| wire::field_json(b[i])));
}

proof fn lemma_same_params(a: Seq<ParamSchema>, b: Seq<ParamSchema>)
    requires
        a.len() == b.len(),
        forall|i: int| 0 <= i < a.len() ==> #[trigger] told::same_param(a[i], b[i]),
    ensures
        wire::some_params(a) == wire::some_params(b),
{
    assert forall|i: int| 0 <= i < a.len() implies wire::param_json(#[trigger] a[i]) == wire::param_json(b[i]) by {
        assert(told::same_param(a[i], b[i]));
        assert(wire::some_deprecation(a[i].deprecation) == wire::some_deprecation(b[i].deprecation));
    }
    assert(Seq::new(a.len(), |i: int| wire::param_json(a[i])) =~= Seq::new(b.len(), |i: int| wire::param_json(b[i])));
}

proof fn lemma_same_required(a: Option<RequiredCredential>, b: Option<RequiredCredential>)
    requires
        match (a, b) {
            (Some(x), Some(y)) => told::same_required(x, y),
            (None, None) => true,
            _ => false,
        },
    ensures
        wire::some_required(a) == wire::some_required(b),
{
    match (a, b) {
        (Some(x), Some(y)) => {
            if x.kind is Some {
                lemma_same_kind(x.kind->0, y.kind->0);
            }
            if x.site_hint is Some {
                lemma_same_site(x.site_hint->0, y.site_hint->0);
            }
            assert(wire::some_kind(x.kind) == wire::some_kind(y.kind));
            assert(wire::some_site(x.site_hint) == wire::some_site(y.site_hint));
        },
        _ => {},
    }
}

/// A copy of a method shows on the wire as the method does, and is public where it is.
pub proof fn law_a_copied_method_is_the_same(a: MethodSchema, b: MethodSchema)
    requires
        copies_method(a, b),
    ensures
        a.public == b.public,
        wire::method_json(a) == wire::method_json(b),
{
    lemma_same_params(a.params_meta@, b.params_meta@);
    lemma_same_fields(a.credentials@, b.credentials@);
    lemma_same_required(a.requires_credential, b.requires_credential);
    assert(wire::role_json(a.role) == wire::role_json(b.role));
    assert(wire::some_deprecation(a.deprecation) == wire::some_deprecation(b.deprecation));
    assert(wire::plain_entries(a) == wire::plain_entries(b));
}

/// A copy of a schema shows on the wire as the schema does.
pub proof fn law_a_copied_schema_is_the_same(a: PluginSchema, b: PluginSchema)
    requires
        copies_plugin(a, b),
    ensures
        wire::plugin_json(a) == wire::plugin_json(b),
        a.methods@.len() == b.methods@.len(),
        forall|i: int| 0 <= i < a.methods@.len() ==> (#[trigger] a.methods@[i]).public == b.methods@[i].public,
{
    assert forall|i: int| 0 <= i < a.methods@.len() implies (#[trigger] a.methods@[i]).public == b.methods@[i].public
        && wire::method_json(a.methods@[i]) == wire::method_json(b.methods@[i]) by {
        law_a_copied_method_is_the_same(a.methods@[i], b.methods@[i]);
    }
    assert(Seq::new(a.methods@.len(), |i: int| wire::method_json(a.methods@[i])) =~= Seq::new(
        b.methods@.len(),
        |i: int| wire::method_json(b.methods@[i]),
    ));
    if a.children is Some {
        let x = a.children->0@;
        let y = b.children->0@;
        assert(schema::child_views(x) == schema::child_views(y));
        assert forall|i: int| 0 <= i < x.len() implies wire::child_json(#[trigger] x[i]) == wire::child_json(y[i]) by {
            assert(schema::child_views(x)[i] == schema::child_views(y)[i]);
            assert(x[i]@ == y[i]@);
        }
        assert(schema::child_views(x).len() == schema::child_views(y).len());
        assert(Seq::new(x.len(), |i: int| wire::child_json(x[i])) =~= Seq::new(y.len(), |i: int| wire::child_json(y[i])));
    }
    assert(wire::methods_json(a.methods@) == wire::methods_json(b.methods@));
    assert(wire::some_children(a.children) == wire::some_children(b.children));
    assert(wire::some_deprecation(a.deprecation) == wire::some_deprecation(b.deprecation));
}

} // verus!
