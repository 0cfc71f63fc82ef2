//! What an activation tells a client of itself: its methods, its children, their hashes.

use crate::digest;
use crate::digest::digest_texts;
use crate::json;
use crate::json::{Json, JsonView};
use crate::outside;
use crate::plexus::credential_envelope;
use crate::plexus::credential_envelope::{
    check_returns_schema_for_credentials_collision, AttachmentSite, CollisionWarning, WarningView,
};
use crate::plexus::scope_gate::MethodGateInfo;
use crate::plexus::wire;
use crate::text;
use crate::text::{copy_opt, copy_texts, get_under, holds_text, join3, put_under, same_text};
use std::collections::hash_map::DefaultHasher;
use vstd::prelude::*;
use vstd::std_specs::hash::*;

verus! {

/// What a method is for: a call, or the way to one child or to many.
#[derive(Debug, Clone, PartialEq, Eq)]
#[non_exhaustive]
pub enum MethodRole {
    Rpc,
    StaticChild,
    DynamicChild { list_method: Option<String>, search_method: Option<String> },
}

/// Whether a role leads to children.
pub open spec fn is_child_role(role: MethodRole) -> bool {
    !(role is Rpc)
}

impl Default for MethodRole {
    fn default() -> (r: Self)
        ensures
            r == MethodRole::Rpc,
    {
        MethodRole::Rpc
    }
}

impl MethodRole {
    /// Whether the role leads to children.
    pub fn leads_to_children(&self) -> (r: bool)
        ensures
            r == is_child_role(*self),
    {
        match self {
            MethodRole::Rpc => false,
            _ => true,
        }
    }
}

/// Since when something is deprecated, until when it lasts, and what to use in its place.
#[derive(Debug, Clone, PartialEq, Eq)]
pub struct DeprecationInfo {
    pub since: String,
    pub removed_in: String,
    pub message: String,
}

/// A parameter and its deprecation.
#[derive(Debug, Clone, PartialEq, Eq)]
pub struct ParamSchema {
    pub name: String,
    pub deprecation: Option<DeprecationInfo>,
}

impl ParamSchema {
    /// A parameter that is not deprecated.
    pub fn new(name: String) -> (r: Self)
        ensures
            r == (ParamSchema { name, deprecation: None }),
    {
        ParamSchema { name, deprecation: None }
    }

    /// The same parameter, deprecated.
    pub fn with_deprecation(self, info: DeprecationInfo) -> (r: Self)
        ensures
            r == (ParamSchema { deprecation: Some(info), ..self }),
    {
        ParamSchema { name: self.name, deprecation: Some(info) }
    }
}

/// The kinds of credentials.
#[derive(Debug, Clone, PartialEq, Eq)]
pub enum CredentialKind {
    Bearer,
    Cookie,
    OauthAccess,
    OauthRefresh,
    OidcId,
    AwsSts,
    Macaroon,
    Other { name: String },
}

/// Who issues a credential.
#[derive(Debug, Clone, PartialEq, Eq)]
pub struct CredentialIssuer {
    pub origin: String,
    pub method: String,
}

/// What is known of a credential besides its value.
#[derive(Debug, Clone, PartialEq, Eq)]
pub struct CredentialMetadata {
    pub kind: CredentialKind,
    pub attach_as: AttachmentSite,
    pub scheme: Option<String>,
    pub scopes: Vec<String>,
    /// When the credential expires, as a date and time in the form of RFC 3339.
    pub expires_at: Option<String>,
    pub refresh_via: Option<String>,
    pub revoke_via: Option<String>,
    pub issuer: CredentialIssuer,
    /// Always set: a credential is never logged.
    pub sensitive: bool,
}

/// A field of a return type that holds a credential, as its type declares it.
pub struct CredentialFieldMarker {
    pub variant: Option<String>,
    pub field: String,
    pub kind: CredentialKind,
    pub attach_as: AttachmentSite,
    pub scheme: Option<String>,
    pub scopes: Vec<String>,
    pub refresh_via: Option<String>,
    pub revoke_via: Option<String>,
}

/// A field of a method's return value that holds a credential.
#[derive(Debug, Clone, PartialEq, Eq)]
pub struct CredentialFieldDecl {
    pub field_path: Vec<String>,
    pub variant_tag: Option<String>,
    pub metadata: CredentialMetadata,
}

impl CredentialFieldDecl {
    /// The declaration behind a marker: the field under a path, with the metadata that the
    /// marker and the issuer give, and no time of expiry.
    pub fn from_marker(marker: CredentialFieldMarker, path_prefix: &Vec<String>, issuer: CredentialIssuer) -> (r: Self)
        ensures
            text::texts(r.field_path@) == text::texts(path_prefix@).push(marker.field@),
            r.variant_tag == marker.variant,
            r.metadata == (CredentialMetadata {
                kind: marker.kind,
                attach_as: marker.attach_as,
                scheme: marker.scheme,
                scopes: marker.scopes,
                expires_at: None,
                refresh_via: marker.refresh_via,
                revoke_via: marker.revoke_via,
                issuer,
                sensitive: true,
            }),
    {
        let mut field_path = copy_texts(path_prefix);
        field_path.push(marker.field);
        assert(text::texts(field_path@) =~= text::texts(path_prefix@).push(marker.field@));
        CredentialFieldDecl {
            field_path,
            variant_tag: marker.variant,
            metadata: CredentialMetadata {
                kind: marker.kind,
                attach_as: marker.attach_as,
                scheme: marker.scheme,
                scopes: marker.scopes,
                expires_at: None,
                refresh_via: marker.refresh_via,
                revoke_via: marker.revoke_via,
                issuer,
                sensitive: true,
            },
        }
    }
}

/// The credential that a method demands.
#[derive(Debug, Clone, PartialEq, Eq)]
pub struct RequiredCredential {
    pub kind: Option<CredentialKind>,
    pub scopes: Vec<String>,
    pub site_hint: Option<AttachmentSite>,
}

impl RequiredCredential {
    /// Any credential that carries a scope.
    pub fn from_method_scope(scope: String) -> (r: Self)
        ensures
            r.kind is None,
            r.scopes@ == seq![scope],
            r.site_hint is None,
    {
        let mut scopes: Vec<String> = Vec::new();
        scopes.push(scope);
        assert(scopes@ =~= seq![scope]);
        RequiredCredential { kind: None, scopes, site_hint: None }
    }

    /// A credential of one kind that carries scopes.
    pub fn from_refresh_revoke_target(kind: CredentialKind, scopes: Vec<String>) -> (r: Self)
        ensures
            r == (RequiredCredential { kind: Some(kind), scopes, site_hint: None }),
    {
        RequiredCredential { kind: Some(kind), scopes, site_hint: None }
    }

    /// The same demand with a hint where to attach the credential, unless it has one.
    pub fn fill_site_hint(self, site: AttachmentSite) -> (r: Self)
        ensures
            r == (match self.site_hint {
                Some(_) => self,
                None => RequiredCredential { site_hint: Some(site), ..self },
            }),
    {
        match self.site_hint {
            Some(hint) => RequiredCredential { kind: self.kind, scopes: self.scopes, site_hint: Some(hint) },
            None => RequiredCredential { kind: self.kind, scopes: self.scopes, site_hint: Some(site) },
        }
    }
}

/// How a method's return value is shaped.
#[derive(Debug, Clone, Copy, PartialEq, Eq, Structural)]
#[non_exhaustive]
pub enum ReturnShape {
    Bare,
    Option,
    Result,
    Vec,
    Stream,
    ResultOption,
}

/// The HTTP verb of a method.
#[derive(Debug, Clone, Copy, PartialEq, Eq, Hash, Structural)]
pub enum HttpMethod {
    Get,
    Post,
    Put,
    Delete,
    Patch,
}

impl Default for HttpMethod {
    fn default() -> (r: Self)
        ensures
            r == HttpMethod::Post,
    {
        HttpMethod::Post
    }
}

/// The name of a verb.
pub open spec fn verb_name(m: HttpMethod) -> Seq<char> {
    match m {
        HttpMethod::Get => "GET"@,
        HttpMethod::Post => "POST"@,
        HttpMethod::Put => "PUT"@,
        HttpMethod::Delete => "DELETE"@,
        HttpMethod::Patch => "PATCH"@,
    }
}

/// The verb with a name in capitals.
pub open spec fn verb_of(s: Seq<char>) -> Option<HttpMethod> {
    if s == "GET"@ {
        Some(HttpMethod::Get)
    } else if s == "POST"@ {
        Some(HttpMethod::Post)
    } else if s == "PUT"@ {
        Some(HttpMethod::Put)
    } else if s == "DELETE"@ {
        Some(HttpMethod::Delete)
    } else if s == "PATCH"@ {
        Some(HttpMethod::Patch)
    } else {
        None
    }
}

impl HttpMethod {
    /// The verb with a name in capitals.
    pub fn from_upper(s: &str) -> (r: Option<Self>)
        ensures
            r == verb_of(s@),
    {
        if same_text(s, "GET") {
            Some(HttpMethod::Get)
        } else if same_text(s, "POST") {
            Some(HttpMethod::Post)
        } else if same_text(s, "PUT") {
            Some(HttpMethod::Put)
        } else if same_text(s, "DELETE") {
            Some(HttpMethod::Delete)
        } else if same_text(s, "PATCH") {
            Some(HttpMethod::Patch)
        } else {
            None
        }
    }

    /// The verb with a name, whatever its case.
    pub fn from_str(s: &str) -> (r: Option<Self>)
        ensures
            r == verb_of(outside::uppercase(s@)),
            outside::is_ascii_text(s@) ==> r == verb_of(outside::ascii_capitals(s@)),
    {
        HttpMethod::from_upper(s.to_uppercase().as_str())
    }

    /// The name of the verb.
    pub fn as_str(&self) -> (r: &'static str)
        ensures
            r@ == verb_name(*self),
    {
        match self {
            HttpMethod::Get => "GET",
            HttpMethod::Post => "POST",
            HttpMethod::Put => "PUT",
            HttpMethod::Delete => "DELETE",
            HttpMethod::Patch => "PATCH",
        }
    }
}

/// The name of a verb reads back as the verb.
pub proof fn law_a_verb_reads_back(m: HttpMethod)
    ensures
        outside::is_ascii_text(verb_name(m)),
        verb_of(outside::ascii_capitals(verb_name(m))) == Some(m),
{
    reveal_strlit("GET");
    reveal_strlit("POST");
    reveal_strlit("PUT");
    reveal_strlit("DELETE");
    reveal_strlit("PATCH");
    assert("PUT"@[0] == 'P' && "GET"@[0] == 'G');
    assert(outside::ascii_capitals(verb_name(m)) =~= verb_name(m));
}

/// A child as its parent lists it.
#[derive(Debug, Clone, PartialEq, Eq)]
pub struct ChildSummary {
    pub namespace: String,
    pub description: String,
    pub hash: String,
}

/// What a `ChildSummary` says.
pub struct ChildView {
    pub namespace: Seq<char>,
    pub description: Seq<char>,
    pub hash: Seq<char>,
}

impl View for ChildSummary {
    type V = ChildView;

    open spec fn view(&self) -> ChildView {
        ChildView { namespace: self.namespace@, description: self.description@, hash: self.hash@ }
    }
}

/// What child summaries say, in order.
pub open spec fn child_views(v: Seq<ChildSummary>) -> Seq<ChildView> {
    Seq::new(v.len(), |i: int| v[i]@)
}

/// The hashes of an activation and its children.
#[derive(Debug, Clone, PartialEq, Eq)]
pub struct PluginHashes {
    pub namespace: String,
    pub self_hash: String,
    pub children_hash: Option<String>,
    pub hash: String,
    pub children: Option<Vec<ChildHashes>>,
}

/// The hash of a child.
#[derive(Debug, Clone, PartialEq, Eq)]
pub struct ChildHashes {
    pub namespace: String,
    pub hash: String,
}

/// A method as a client sees it.
pub struct MethodSchema {
    pub name: String,
    pub description: String,
    pub hash: String,
    pub params: Option<Json>,
    pub returns: Option<Json>,
    pub streaming: bool,
    pub bidirectional: bool,
    pub http_method: HttpMethod,
    pub request_type: Option<Json>,
    pub response_type: Option<Json>,
    pub role: MethodRole,
    pub deprecation: Option<DeprecationInfo>,
    pub return_shape: Option<ReturnShape>,
    pub params_meta: Vec<ParamSchema>,
    pub credentials: Vec<CredentialFieldDecl>,
    pub requires_credential: Option<RequiredCredential>,
    /// Whether the method is open to everybody.
    pub public: bool,
}

/// The method with a hint where to attach the credential that it demands, unless it has one
/// or demands none.
pub open spec fn with_hint(m: MethodSchema, site: AttachmentSite) -> MethodSchema {
    match m.requires_credential {
        Some(req) => if req.site_hint is None {
            MethodSchema {
                requires_credential: Some(RequiredCredential { site_hint: Some(site), ..req }),
                ..m
            }
        } else {
            m
        },
        None => m,
    }
}

/// A hint that is there stays, and filling in a second one changes nothing.
pub proof fn law_a_hint_is_filled_once(m: MethodSchema, first: AttachmentSite, second: AttachmentSite)
    ensures
        with_hint(with_hint(m, first), second) == with_hint(m, first),
        m.requires_credential matches Some(req) ==> req.site_hint is Some ==> with_hint(m, first) == m,
{
}

/// Whether schemas are others with their hints filled in.
pub open spec fn hints_filled(before: Seq<MethodSchema>, after: Seq<MethodSchema>, site: AttachmentSite) -> bool {
    &&& after.len() == before.len()
    &&& forall|i: int| 0 <= i < after.len() ==> #[trigger] after[i] == with_hint(before[i], site)
}

impl SchemaResult {
    /// The same schema with hints where to attach the credentials that methods demand.
    pub fn fill_site_hints(self, site: &AttachmentSite) -> (r: Self)
        ensures
            match (self, r) {
                (SchemaResult::Plugin(a), SchemaResult::Plugin(b)) => b == (PluginSchema { methods: b.methods, ..a })
                    && hints_filled(a.methods@, b.methods@, *site),
                (SchemaResult::Method(a), SchemaResult::Method(b)) => b == with_hint(a, *site),
                _ => false,
            },
    {
        match self {
            SchemaResult::Plugin(p) => SchemaResult::Plugin(p.fill_site_hints(site)),
            SchemaResult::Method(m) => SchemaResult::Method(m.fill_site_hint(site.copy())),
        }
    }
}

impl PluginSchema {
    /// The same activation with hints where to attach the credentials that methods demand.
    pub fn fill_site_hints(self, site: &AttachmentSite) -> (r: Self)
        ensures
            r == (PluginSchema { methods: r.methods, ..self }),
            hints_filled(self.methods@, r.methods@, *site),
    {
        let mut s = self;
        let mut rest: Vec<MethodSchema> = Vec::new();
        std::mem::swap(&mut rest, &mut s.methods);
        let ghost all = rest@;
        let ghost mut done: int = 0;
        let mut out: Vec<MethodSchema> = Vec::new();
        assert(all.skip(0) =~= all);
        while rest.len() > 0
            invariant
                0 <= done <= all.len(),
                rest@ == all.skip(done),
                out@.len() == done,
                forall|i: int| 0 <= i < done ==> #[trigger] out@[i] == with_hint(all[i], *site),
            decreases rest.len(),
        {
            let m = rest.remove(0);
            assert(m == all[done]);
            assert(all.skip(done).remove(0) =~= all.skip(done + 1));
            out.push(m.fill_site_hint(site.copy()));
            proof {
                done = done + 1;
            }
        }
        s.methods = out;
        s
    }
}

impl MethodSchema {
    /// A method with nothing declared but its name, description and hash.
    pub fn new(name: String, description: String, hash: String) -> (r: Self)
        ensures
            r.name == name,
            r.description == description,
            r.hash == hash,
            r.params is None,
            r.returns is None,
            !r.streaming,
            !r.bidirectional,
            r.http_method == HttpMethod::Post,
            r.request_type is None,
            r.response_type is None,
            r.role == MethodRole::Rpc,
            r.deprecation is None,
            r.return_shape is None,
            r.params_meta@.len() == 0,
            r.credentials@.len() == 0,
            r.requires_credential is None,
            !r.public,
    {
        MethodSchema {
            name,
            description,
            hash,
            params: None,
            returns: None,
            streaming: false,
            bidirectional: false,
            http_method: HttpMethod::Post,
            request_type: None,
            response_type: None,
            role: MethodRole::Rpc,
            deprecation: None,
            return_shape: None,
            params_meta: Vec::new(),
            credentials: Vec::new(),
            requires_credential: None,
            public: false,
        }
    }

    /// The same method with a params schema.
    pub fn with_params(self, params: Json) -> (r: Self)
        ensures
            r == (MethodSchema { params: Some(params), ..self }),
    {
        let mut m = self;
        m.params = Some(params);
        m
    }

    /// The same method with a returns schema.
    pub fn with_returns(self, schema: Json) -> (r: Self)
        ensures
            r == (MethodSchema { returns: Some(schema), ..self }),
    {
        let mut m = self;
        m.returns = Some(schema);
        m
    }

    /// The same method, streaming or not.
    pub fn with_streaming(self, streaming: bool) -> (r: Self)
        ensures
            r == (MethodSchema { streaming, ..self }),
    {
        let mut m = self;
        m.streaming = streaming;
        m
    }

    /// The same method under another verb.
    pub fn with_http_method(self, http_method: HttpMethod) -> (r: Self)
        ensures
            r == (MethodSchema { http_method, ..self }),
    {
        let mut m = self;
        m.http_method = http_method;
        m
    }

    /// The same method, bidirectional or not.
    pub fn with_bidirectional(self, bidirectional: bool) -> (r: Self)
        ensures
            r == (MethodSchema { bidirectional, ..self }),
    {
        let mut m = self;
        m.bidirectional = bidirectional;
        m
    }

    /// The same method with a schema of its server-to-client requests.
    pub fn with_request_type(self, schema: Json) -> (r: Self)
        ensures
            r == (MethodSchema { request_type: Some(schema), ..self }),
    {
        let mut m = self;
        m.request_type = Some(schema);
        m
    }

    /// The same method with a schema of the responses to its requests.
    pub fn with_response_type(self, schema: Json) -> (r: Self)
        ensures
            r == (MethodSchema { response_type: Some(schema), ..self }),
    {
        let mut m = self;
        m.response_type = Some(schema);
        m
    }

    /// The same method, bidirectional, with the schemas of the standard requests and responses.
    pub fn with_standard_bidirectional(self, request: Json, response: Json) -> (r: Self)
        ensures
            r == (MethodSchema {
                bidirectional: true,
                request_type: Some(request),
                response_type: Some(response),
                ..self
            }),
    {
        self.with_bidirectional(true).with_request_type(request).with_response_type(response)
    }

    /// The same method with another role.
    pub fn with_role(self, role: MethodRole) -> (r: Self)
        ensures
            r == (MethodSchema { role, ..self }),
    {
        let mut m = self;
        m.role = role;
        m
    }

    /// The same method, deprecated.
    pub fn with_deprecation(self, info: DeprecationInfo) -> (r: Self)
        ensures
            r == (MethodSchema { deprecation: Some(info), ..self }),
    {
        let mut m = self;
        m.deprecation = Some(info);
        m
    }

    /// The same method with a shape of its return value.
    pub fn with_return_shape(self, shape: ReturnShape) -> (r: Self)
        ensures
            r == (MethodSchema { return_shape: Some(shape), ..self }),
    {
        let mut m = self;
        m.return_shape = Some(shape);
        m
    }

    /// The same method with its parameters.
    pub fn with_params_meta(self, entries: Vec<ParamSchema>) -> (r: Self)
        ensures
            r == (MethodSchema { params_meta: entries, ..self }),
    {
        let mut m = self;
        m.params_meta = entries;
        m
    }

    /// The same method with the credentials that it returns.
    pub fn with_credentials(self, credentials: Vec<CredentialFieldDecl>) -> (r: Self)
        ensures
            r == (MethodSchema { credentials, ..self }),
    {
        let mut m = self;
        m.credentials = credentials;
        m
    }

    /// The same method with the credential that it demands.
    pub fn with_requires_credential(self, req: RequiredCredential) -> (r: Self)
        ensures
            r == (MethodSchema { requires_credential: Some(req), ..self }),
    {
        let mut m = self;
        m.requires_credential = Some(req);
        m
    }

    /// The same method with a hint where to attach the credential that it demands, unless it
    /// has one or demands none.
    pub fn fill_site_hint(self, site: AttachmentSite) -> (r: Self)
        ensures
            r == with_hint(self, site),
    {
        let mut m = self;
        m.requires_credential = match m.requires_credential {
            Some(req) => Some(req.fill_site_hint(site)),
            None => None,
        };
        m
    }
}

/// The scopes of the credential that a method demands.
pub open spec fn demanded_of(m: MethodSchema) -> Seq<Seq<char>> {
    match m.requires_credential {
        Some(rc) => text::texts(rc.scopes@),
        None => Seq::empty(),
    }
}

impl MethodGateInfo {
    /// What a method's schema says to the scope gate.
    pub fn from_schema(schema: &MethodSchema) -> (r: Self)
        ensures
            r.public == schema.public,
            text::texts(r.scopes@) == demanded_of(*schema),
    {
        let scopes = match &schema.requires_credential {
            Some(rc) => copy_texts(&rc.scopes),
            None => {
                let none: Vec<String> = Vec::new();
                assert(text::texts(none@) =~= Seq::empty());
                none
            },
        };
        MethodGateInfo { public: schema.public, scopes }
    }
}

/// The names of methods, in order.
pub open spec fn schema_names(methods: Seq<MethodSchema>) -> Seq<Seq<char>> {
    Seq::new(methods.len(), |i: int| methods[i].name@)
}

/// The hashes of methods, in order.
pub open spec fn method_hashes(methods: Seq<MethodSchema>) -> Seq<Seq<char>> {
    Seq::new(methods.len(), |i: int| methods[i].hash@)
}

/// The names of children, in order.
pub open spec fn child_names(children: Seq<ChildSummary>) -> Seq<Seq<char>> {
    Seq::new(children.len(), |i: int| children[i].namespace@)
}

/// The hashes of children, in order.
pub open spec fn child_hashes(children: Seq<ChildSummary>) -> Seq<Seq<char>> {
    Seq::new(children.len(), |i: int| children[i].hash@)
}

/// The position of the first method with a name, or the number of methods when there is none.
pub open spec fn schema_at(methods: Seq<MethodSchema>, name: Seq<char>) -> int
    decreases methods.len(),
{
    if methods.len() == 0 {
        0
    } else if methods[0].name@ == name {
        0
    } else {
        1 + schema_at(methods.skip(1), name)
    }
}

/// Finds the first method with a name.
pub fn find_schema(methods: &Vec<MethodSchema>, name: &str) -> (r: usize)
    ensures
        r == schema_at(methods@, name@),
        r <= methods@.len(),
        r < methods@.len() ==> methods@[r as int].name@ == name@,
        forall|j: int| 0 <= j < r ==> methods@[j].name@ != name@,
{
    let mut i: usize = 0;
    assert(methods@.skip(0) =~= methods@);
    while i < methods.len() && !same_text(methods[i].name.as_str(), name)
        invariant
            i <= methods.len(),
            schema_at(methods@, name@) == i + schema_at(methods@.skip(i as int), name@),
            forall|j: int| 0 <= j < i ==> methods@[j].name@ != name@,
        decreases methods.len() - i,
    {
        assert(methods@.skip(i as int)[0] == methods@[i as int]);
        assert(methods@.skip(i as int).skip(1) =~= methods@.skip(i + 1));
        i += 1;
    }
    proof {
        if i < methods.len() {
            assert(methods@.skip(i as int)[0] == methods@[i as int]);
        }
    }
    i
}

/// What can clash among the names of an activation.
#[derive(Debug, Clone, Copy, PartialEq, Eq, Structural)]
pub enum CollisionKind {
    DuplicateMethod,
    MethodChild,
    DuplicateChild,
}

/// A clash of names.
#[derive(Debug, PartialEq, Eq)]
pub struct Collision {
    pub kind: CollisionKind,
    pub name: String,
}

/// The first name at or behind a position that stands before its position too.
pub open spec fn first_repeat(names: Seq<Seq<char>>, i: int) -> Option<Seq<char>>
    decreases names.len() - i,
{
    if i < 0 || i >= names.len() {
        None
    } else if names.take(i).contains(names[i]) {
        Some(names[i])
    } else {
        first_repeat(names, i + 1)
    }
}

/// The first child at or behind a position that clashes: with an earlier child, or with a
/// method that does not lead to children. A method that leads to children may share its name
/// with a child: the two are one child, shown twice.
pub open spec fn child_clash(methods: Seq<MethodSchema>, kids: Seq<Seq<char>>, i: int) -> Option<
    (CollisionKind, Seq<char>),
>
    decreases kids.len() - i,
{
    if i < 0 || i >= kids.len() {
        None
    } else {
        let at = schema_at(methods, kids[i]);
        if kids.take(i).contains(kids[i]) {
            Some((CollisionKind::DuplicateChild, kids[i]))
        } else if at < methods.len() && !is_child_role(methods[at].role) {
            Some((CollisionKind::MethodChild, kids[i]))
        } else {
            child_clash(methods, kids, i + 1)
        }
    }
}

/// The first clash among the names of an activation: among its methods, then of its children.
pub open spec fn clash(methods: Seq<MethodSchema>, kids: Seq<Seq<char>>) -> Option<(CollisionKind, Seq<char>)> {
    match first_repeat(schema_names(methods), 0) {
        Some(name) => Some((CollisionKind::DuplicateMethod, name)),
        None => child_clash(methods, kids, 0),
    }
}

/// The message of a clash.
pub open spec fn clash_message(namespace: Seq<char>, kind: CollisionKind, name: Seq<char>) -> Seq<char> {
    "Name collision in plugin '"@ + namespace + (match kind {
        CollisionKind::DuplicateMethod => "': duplicate method '"@,
        CollisionKind::MethodChild => "': method/child collision for '"@,
        CollisionKind::DuplicateChild => "': duplicate child for '"@,
    }) + name + "'"@
}

impl Collision {
    /// The message of the clash.
    pub fn message(&self, namespace: &str) -> (r: String)
        ensures
            r@ == clash_message(namespace@, self.kind, self.name@),
    {
        let middle = match self.kind {
            CollisionKind::DuplicateMethod => "': duplicate method '",
            CollisionKind::MethodChild => "': method/child collision for '",
            CollisionKind::DuplicateChild => "': duplicate child for '",
        };
        let mut s = join3("Name collision in plugin '", namespace, middle);
        s.append(self.name.as_str());
        s.append("'");
        s
    }
}

/// The summary of a method that leads to children.
pub open spec fn summary_of(m: MethodSchema) -> ChildView {
    ChildView { namespace: m.name@, description: m.description@, hash: Seq::empty() }
}

/// The summaries of the methods that lead to children, in order.
pub open spec fn role_children(methods: Seq<MethodSchema>) -> Seq<ChildView>
    decreases methods.len(),
{
    if methods.len() == 0 {
        Seq::empty()
    } else if is_child_role(methods.last().role) {
        role_children(methods.drop_last()).push(summary_of(methods.last()))
    } else {
        role_children(methods.drop_last())
    }
}

/// Whether a method leads to children.
pub open spec fn has_child_role(methods: Seq<MethodSchema>) -> bool {
    exists|i: int| 0 <= i < methods.len() && is_child_role(#[trigger] methods[i].role)
}

/// There is a summary exactly where a method leads to children.
pub proof fn law_children_come_from_roles(methods: Seq<MethodSchema>)
    ensures
        role_children(methods).len() > 0 <==> has_child_role(methods),
    decreases methods.len(),
{
    if methods.len() > 0 {
        let rest = methods.drop_last();
        law_children_come_from_roles(rest);
        if has_child_role(methods) && !is_child_role(methods.last().role) {
            let i = choose|i: int| 0 <= i < methods.len() && is_child_role(#[trigger] methods[i].role);
            assert(is_child_role(rest[i].role));
        }
        if has_child_role(rest) {
            let i = choose|i: int| 0 <= i < rest.len() && is_child_role(#[trigger] rest[i].role);
            assert(is_child_role(methods[i].role));
        }
        if is_child_role(methods.last().role) {
            assert(is_child_role(methods[methods.len() - 1].role));
        }
    }
}

/// Whether a method returns a field of the reserved name.
pub open spec fn returns_reserved_field(m: MethodSchema) -> bool {
    m.returns is Some && credential_envelope::declares_reserved_field(m.returns->0@)
}

/// The warnings about methods that return a field of the reserved name, in the methods' order.
pub open spec fn reserved_field_warnings(namespace: Seq<char>, methods: Seq<MethodSchema>) -> Seq<WarningView>
    decreases methods.len(),
{
    if methods.len() == 0 {
        Seq::empty()
    } else if returns_reserved_field(methods.last()) {
        reserved_field_warnings(namespace, methods.drop_last()).push(
            credential_envelope::collision_warning(namespace, methods.last().name@),
        )
    } else {
        reserved_field_warnings(namespace, methods.drop_last())
    }
}

/// What warnings say, in order.
pub open spec fn warning_views(v: Seq<CollisionWarning>) -> Seq<WarningView> {
    Seq::new(v.len(), |i: int| v[i]@)
}

/// An activation as a client sees it.
pub struct PluginSchema {
    pub namespace: String,
    pub version: String,
    pub description: String,
    pub long_description: Option<String>,
    /// The hash of the methods.
    pub self_hash: String,
    /// The hash of the children.
    pub children_hash: Option<String>,
    /// The hash of both.
    pub hash: String,
    pub methods: Vec<MethodSchema>,
    pub children: Option<Vec<ChildSummary>>,
    pub request: Option<Json>,
    pub deprecation: Option<DeprecationInfo>,
}

/// A schema of an activation or of one of its methods.
pub enum SchemaResult {
    Plugin(PluginSchema),
    Method(MethodSchema),
}

/// The hash of an activation from that of its methods and that of its children.
pub open spec fn composite_hash(self_hash: Seq<char>, children_hash: Option<Seq<char>>) -> Seq<char> {
    match children_hash {
        Some(ch) => digest::digest(seq![self_hash, ch]),
        None => digest::digest(seq![self_hash]),
    }
}

/// Whether the hashes of a schema are those of its methods and children.
pub open spec fn is_hashed(s: PluginSchema) -> bool {
    &&& s.self_hash@ == digest::digest(method_hashes(s.methods@))
    &&& text::opt_text(s.children_hash) == (match s.children {
        Some(kids) => Some(digest::digest(child_hashes(kids@))),
        None => None,
    })
    &&& s.hash@ == composite_hash(s.self_hash@, text::opt_text(s.children_hash))
}

impl PluginSchema {
    /// The hashes of methods and children.
    fn compute_hashes(methods: &Vec<MethodSchema>, children: Option<&Vec<ChildSummary>>) -> (r: (
        String,
        Option<String>,
        String,
    ))
        ensures
            r.0@ == digest::digest(method_hashes(methods@)),
            text::opt_text(r.1) == (match children {
                Some(kids) => Some(digest::digest(child_hashes(kids@))),
                None => None,
            }),
            r.2@ == composite_hash(r.0@, text::opt_text(r.1)),
    {
        let mut parts: Vec<String> = Vec::new();
        let mut i: usize = 0;
        while i < methods.len()
            invariant
                i <= methods.len(),
                parts@.len() == i,
                forall|j: int| 0 <= j < i ==> (#[trigger] parts@[j])@ == methods@[j].hash@,
            decreases methods.len() - i,
        {
            parts.push(methods[i].hash.clone());
            i += 1;
        }
        assert(text::texts(parts@) =~= method_hashes(methods@));
        let self_hash = digest_texts(&parts);
        let children_hash = match children {
            Some(kids) => {
                let mut parts: Vec<String> = Vec::new();
                let mut i: usize = 0;
                while i < kids.len()
                    invariant
                        i <= kids.len(),
                        parts@.len() == i,
                        forall|j: int| 0 <= j < i ==> (#[trigger] parts@[j])@ == kids@[j].hash@,
                    decreases kids.len() - i,
                {
                    parts.push(kids[i].hash.clone());
                    i += 1;
                }
                assert(text::texts(parts@) =~= child_hashes(kids@));
                Some(digest_texts(&parts))
            },
            None => None,
        };
        let mut parts: Vec<String> = Vec::new();
        parts.push(self_hash.clone());
        match &children_hash {
            Some(ch) => {
                parts.push(ch.clone());
                assert(text::texts(parts@) =~= seq![self_hash@, ch@]);
            },
            None => {
                assert(text::texts(parts@) =~= seq![self_hash@]);
            },
        }
        let hash = digest_texts(&parts);
        (self_hash, children_hash, hash)
    }

    /// The warnings about methods that return a field of the reserved name, one for each.
    pub fn warn_on_credentials_field_collisions(namespace: &str, methods: &Vec<MethodSchema>) -> (r: Vec<
        CollisionWarning,
    >)
        ensures
            warning_views(r@) == reserved_field_warnings(namespace@, methods@),
    {
        let mut out: Vec<CollisionWarning> = Vec::new();
        let mut i: usize = 0;
        assert(methods@.take(0) =~= Seq::empty());
        assert(warning_views(out@) =~= Seq::empty());
        while i < methods.len()
            invariant
                i <= methods.len(),
                warning_views(out@) == reserved_field_warnings(namespace@, methods@.take(i as int)),
            decreases methods.len() - i,
        {
            let ghost before = warning_views(out@);
            proof {
                assert(methods@.take(i + 1).drop_last() =~= methods@.take(i as int));
                assert(methods@.take(i + 1).last() == methods@[i as int]);
            }
            match &methods[i].returns {
                Some(schema) => {
                    match check_returns_schema_for_credentials_collision(
                        namespace,
                        methods[i].name.as_str(),
                        schema,
                    ) {
                        Some(warning) => {
                            let ghost said = warning@;
                            out.push(warning);
                            assert(warning_views(out@) =~= before.push(said));
                        },
                        None => {},
                    }
                },
                None => {},
            }
            i += 1;
        }
        assert(methods@.take(methods@.len() as int) =~= methods@);
        out
    }

    /// The first clash among the names of an activation.
    pub fn validate_no_collisions(methods: &Vec<MethodSchema>, children: Option<&Vec<ChildSummary>>) -> (r: Option<
        Collision,
    >)
        ensures
            ({
                let kids = match children {
                    Some(k) => child_names(k@),
                    None => Seq::empty(),
                };
                match r {
                    Some(c) => clash(methods@, kids) == Some((c.kind, c.name@)),
                    None => clash(methods@, kids) is None,
                }
            }),
    {
        let ghost names = schema_names(methods@);
        let mut seen: Vec<String> = Vec::new();
        let mut i: usize = 0;
        assert(text::texts(seen@) =~= names.take(0));
        while i < methods.len()
            invariant
                names == schema_names(methods@),
                i <= methods.len(),
                text::texts(seen@) == names.take(i as int),
                first_repeat(names, 0) == first_repeat(names, i as int),
            decreases methods.len() - i,
        {
            if holds_text(&seen, methods[i].name.as_str()) {
                return Some(Collision { kind: CollisionKind::DuplicateMethod, name: methods[i].name.clone() });
            }
            let ghost before = text::texts(seen@);
            seen.push(methods[i].name.clone());
            proof {
                assert(text::texts(seen@) =~= before.push(names[i as int]));
                assert(names.take(i + 1) =~= names.take(i as int).push(names[i as int]));
            }
            i += 1;
        }
        match children {
            None => None,
            Some(kids) => {
                let ghost kid_names = child_names(kids@);
                let mut earlier: Vec<String> = Vec::new();
                let mut i: usize = 0;
                assert(text::texts(earlier@) =~= kid_names.take(0));
                while i < kids.len()
                    invariant
                        children == Some(kids),
                        first_repeat(schema_names(methods@), 0) is None,
                        kid_names == child_names(kids@),
                        i <= kids.len(),
                        text::texts(earlier@) == kid_names.take(i as int),
                        child_clash(methods@, kid_names, 0) == child_clash(methods@, kid_names, i as int),
                    decreases kids.len() - i,
                {
                    let at = find_schema(methods, kids[i].namespace.as_str());
                    assert(kid_names[i as int] == kids@[i as int].namespace@);
                    if holds_text(&earlier, kids[i].namespace.as_str()) {
                        return Some(
                            Collision { kind: CollisionKind::DuplicateChild, name: kids[i].namespace.clone() },
                        );
                    }
                    if at < methods.len() && !methods[at].role.leads_to_children() {
                        return Some(
                            Collision { kind: CollisionKind::MethodChild, name: kids[i].namespace.clone() },
                        );
                    }
                    let ghost before = text::texts(earlier@);
                    earlier.push(kids[i].namespace.clone());
                    proof {
                        assert(text::texts(earlier@) =~= before.push(kid_names[i as int]));
                        assert(kid_names.take(i + 1) =~= kid_names.take(i as int).push(kid_names[i as int]));
                    }
                    i += 1;
                }
                None
            },
        }
    }

    /// The children that the roles of methods imply, and whether there are any.
    pub fn derive_legacy_fields(methods: &Vec<MethodSchema>) -> (r: (Vec<ChildSummary>, bool))
        ensures
            child_views(r.0@) == role_children(methods@),
            r.1 == has_child_role(methods@),
    {
        let mut children: Vec<ChildSummary> = Vec::new();
        let mut i: usize = 0;
        assert(methods@.take(0) =~= Seq::empty());
        assert(child_views(children@) =~= Seq::empty());
        while i < methods.len()
            invariant
                i <= methods.len(),
                child_views(children@) == role_children(methods@.take(i as int)),
            decreases methods.len() - i,
        {
            let ghost before = child_views(children@);
            proof {
                assert(methods@.take(i + 1).drop_last() =~= methods@.take(i as int));
                assert(methods@.take(i + 1).last() == methods@[i as int]);
            }
            if methods[i].role.leads_to_children() {
                children.push(
                    ChildSummary {
                        namespace: methods[i].name.clone(),
                        description: methods[i].description.clone(),
                        hash: String::new(),
                    },
                );
                assert(child_views(children@) =~= before.push(summary_of(methods@[i as int])));
            }
            i += 1;
        }
        proof {
            assert(methods@.take(methods@.len() as int) =~= methods@);
            law_children_come_from_roles(methods@);
            assert(child_views(children@).len() == children@.len());
        }
        let is_hub = children.len() > 0;
        (children, is_hub)
    }

    fn build(
        namespace: String,
        version: String,
        description: String,
        long_description: Option<String>,
        methods: Vec<MethodSchema>,
        children: Option<Vec<ChildSummary>>,
    ) -> (r: Self)
        ensures
            is_hashed(r),
            r == (PluginSchema {
                namespace,
                version,
                description,
                long_description,
                self_hash: r.self_hash,
                children_hash: r.children_hash,
                hash: r.hash,
                methods,
                children,
                request: None,
                deprecation: None,
            }),
    {
        let (self_hash, children_hash, hash) = PluginSchema::compute_hashes(&methods, children.as_ref());
        PluginSchema {
            namespace,
            version,
            description,
            long_description,
            self_hash,
            children_hash,
            hash,
            methods,
            children,
            request: None,
            deprecation: None,
        }
    }

    /// An activation without children.
    pub fn leaf(namespace: String, version: String, description: String, methods: Vec<MethodSchema>) -> (r: Self)
        requires
            clash(methods@, Seq::empty()) is None,
        ensures
            is_hashed(r),
            r == (PluginSchema {
                namespace,
                version,
                description,
                long_description: None,
                self_hash: r.self_hash,
                children_hash: r.children_hash,
                hash: r.hash,
                methods,
                children: None,
                request: None,
                deprecation: None,
            }),
    {
        PluginSchema::build(namespace, version, description, None, methods, None)
    }

    /// An activation without children, with a long description.
    pub fn leaf_with_long_description(
        namespace: String,
        version: String,
        description: String,
        long_description: String,
        methods: Vec<MethodSchema>,
    ) -> (r: Self)
        requires
            clash(methods@, Seq::empty()) is None,
        ensures
            is_hashed(r),
            r == (PluginSchema {
                namespace,
                version,
                description,
                long_description: Some(long_description),
                self_hash: r.self_hash,
                children_hash: r.children_hash,
                hash: r.hash,
                methods,
                children: None,
                request: None,
                deprecation: None,
            }),
    {
        PluginSchema::build(namespace, version, description, Some(long_description), methods, None)
    }

    /// An activation with children.
    pub fn hub(
        namespace: String,
        version: String,
        description: String,
        methods: Vec<MethodSchema>,
        children: Vec<ChildSummary>,
    ) -> (r: Self)
        requires
            clash(methods@, child_names(children@)) is None,
        ensures
            is_hashed(r),
            r == (PluginSchema {
                namespace,
                version,
                description,
                long_description: None,
                self_hash: r.self_hash,
                children_hash: r.children_hash,
                hash: r.hash,
                methods,
                children: Some(children),
                request: None,
                deprecation: None,
            }),
    {
        PluginSchema::build(namespace, version, description, None, methods, Some(children))
    }

    /// An activation with children and a long description.
    pub fn hub_with_long_description(
        namespace: String,
        version: String,
        description: String,
        long_description: String,
        methods: Vec<MethodSchema>,
        children: Vec<ChildSummary>,
    ) -> (r: Self)
        requires
            clash(methods@, child_names(children@)) is None,
        ensures
            is_hashed(r),
            r == (PluginSchema {
                namespace,
                version,
                description,
                long_description: Some(long_description),
                self_hash: r.self_hash,
                children_hash: r.children_hash,
                hash: r.hash,
                methods,
                children: Some(children),
                request: None,
                deprecation: None,
            }),
    {
        PluginSchema::build(namespace, version, description, Some(long_description), methods, Some(children))
    }

    /// Whether the activation has children, by its roles or by its list.
    pub fn is_hub(&self) -> (r: bool)
        ensures
            r == (has_child_role(self.methods@) || self.children is Some),
    {
        self.is_hub_by_role() || self.children.is_some()
    }

    /// Whether a method leads to children.
    pub fn is_hub_by_role(&self) -> (r: bool)
        ensures
            r == has_child_role(self.methods@),
    {
        let mut i: usize = 0;
        while i < self.methods.len()
            invariant
                i <= self.methods.len(),
                forall|j: int| 0 <= j < i ==> !is_child_role(#[trigger] self.methods@[j].role),
            decreases self.methods.len() - i,
        {
            if self.methods[i].role.leads_to_children() {
                assert(is_child_role(self.methods@[i as int].role));
                return true;
            }
            i += 1;
        }
        false
    }

    /// Whether the activation has no list of children.
    pub fn is_leaf(&self) -> (r: bool)
        ensures
            r == (self.children is None),
    {
        self.children.is_none()
    }

    /// The same activation, deprecated.
    pub fn with_deprecation(self, info: DeprecationInfo) -> (r: Self)
        ensures
            r == (PluginSchema { deprecation: Some(info), ..self }),
    {
        let mut s = self;
        s.deprecation = Some(info);
        s
    }

    /// The hashes of the activation and its children.
    pub fn hashes(&self) -> (r: PluginHashes)
        ensures
            r.namespace@ == self.namespace@,
            r.self_hash@ == self.self_hash@,
            text::opt_text(r.children_hash) == text::opt_text(self.children_hash),
            r.hash@ == self.hash@,
            match (r.children, self.children) {
                (Some(hs), Some(kids)) => hs@.len() == kids@.len() && forall|i: int|
                    0 <= i < hs@.len() ==> (#[trigger] hs@[i]).namespace@ == kids@[i].namespace@ && hs@[i].hash@
                        == kids@[i].hash@,
                (None, None) => true,
                _ => false,
            },
    {
        let children = match &self.children {
            Some(kids) => {
                let mut out: Vec<ChildHashes> = Vec::new();
                let mut i: usize = 0;
                while i < kids.len()
                    invariant
                        i <= kids.len(),
                        out@.len() == i,
                        forall|j: int|
                            0 <= j < i ==> (#[trigger] out@[j]).namespace@ == kids@[j].namespace@ && out@[j].hash@
                                == kids@[j].hash@,
                    decreases kids.len() - i,
                {
                    out.push(ChildHashes { namespace: kids[i].namespace.clone(), hash: kids[i].hash.clone() });
                    i += 1;
                }
                Some(out)
            },
            None => None,
        };
        PluginHashes {
            namespace: self.namespace.clone(),
            self_hash: self.self_hash.clone(),
            children_hash: copy_opt(&self.children_hash),
            hash: self.hash.clone(),
            children,
        }
    }
}

/// Two activations whose methods and children have the same hashes have the same hash.
pub proof fn law_hash_follows_its_parts(a: PluginSchema, b: PluginSchema)
    requires
        is_hashed(a),
        is_hashed(b),
        method_hashes(a.methods@) == method_hashes(b.methods@),
        match (a.children, b.children) {
            (Some(x), Some(y)) => child_hashes(x@) == child_hashes(y@),
            (None, None) => true,
            _ => false,
        },
    ensures
        a.self_hash@ == b.self_hash@,
        text::opt_text(a.children_hash) == text::opt_text(b.children_hash),
        a.hash@ == b.hash@,
{
}

/// Each hash of an activation depends on its own parts alone: that of the methods on their
/// hashes, that of the children on theirs, the whole on these two. There is a hash of the
/// children exactly where there are children, so a change of the children alone leaves the hash
/// of the methods as it was.
pub proof fn law_each_hash_depends_on_its_parts_alone(a: PluginSchema, b: PluginSchema)
    requires
        is_hashed(a),
        is_hashed(b),
    ensures
        a.children_hash is None <==> a.children is None,
        method_hashes(a.methods@) == method_hashes(b.methods@) ==> a.self_hash@ == b.self_hash@,
        a.children is Some && b.children is Some && child_hashes(a.children->0@) == child_hashes(b.children->0@)
            ==> text::opt_text(a.children_hash) == text::opt_text(b.children_hash),
        a.self_hash@ == b.self_hash@ && text::opt_text(a.children_hash) == text::opt_text(b.children_hash)
            ==> a.hash@ == b.hash@,
{
}

/// Each hash of an activation has sixteen lowercase hexadecimal digits.
pub proof fn law_a_hash_has_sixteen_digits(s: PluginSchema)
    requires
        is_hashed(s),
    ensures
        digest::is_digest(s.self_hash@),
        s.children_hash matches Some(h) ==> digest::is_digest(h@),
        digest::is_digest(s.hash@),
{
    digest::law_a_digest_has_sixteen_digits(method_hashes(s.methods@));
    if s.children is Some {
        digest::law_a_digest_has_sixteen_digits(child_hashes(s.children->0@));
    }
    match text::opt_text(s.children_hash) {
        Some(ch) => digest::law_a_digest_has_sixteen_digits(seq![s.self_hash@, ch]),
        None => digest::law_a_digest_has_sixteen_digits(seq![s.self_hash@]),
    }
}

/// A method and its help text.
pub struct MethodHelp {
    pub name: String,
    pub help: Option<String>,
}

/// The description that goes with a help text that may be missing.
pub open spec fn help_text(help: Option<String>) -> Seq<char> {
    match help {
        Some(h) => h@,
        None => Seq::empty(),
    }
}

/// Whether a method schema is the one that follows from a name and a help text.
pub open spec fn follows_from(m: MethodSchema, h: MethodHelp) -> bool {
    &&& m.name@ == h.name@
    &&& m.description@ == help_text(h.help)
    &&& m.hash@ == digest::digest(seq![h.name@, help_text(h.help)])
    &&& m.role == MethodRole::Rpc
    &&& m.params is None
    &&& m.returns is None
    &&& !m.streaming
    &&& !m.bidirectional
    &&& m.http_method == HttpMethod::Post
    &&& m.request_type is None
    &&& m.response_type is None
    &&& m.deprecation is None
    &&& m.return_shape is None
    &&& m.params_meta@.len() == 0
    &&& m.credentials@.len() == 0
    &&& m.requires_credential is None
    &&& !m.public
}

/// The schemas of methods that say no more than their names and help texts.
pub fn schemas_from_help(methods: &Vec<MethodHelp>) -> (r: Vec<MethodSchema>)
    ensures
        r@.len() == methods@.len(),
        forall|i: int| 0 <= i < r@.len() ==> follows_from(#[trigger] r@[i], methods@[i]),
{
    let mut out: Vec<MethodSchema> = Vec::new();
    let mut i: usize = 0;
    while i < methods.len()
        invariant
            i <= methods.len(),
            out@.len() == i,
            forall|j: int| 0 <= j < i ==> follows_from(#[trigger] out@[j], methods@[j]),
        decreases methods.len() - i,
    {
        let desc = match &methods[i].help {
            Some(h) => h.clone(),
            None => String::new(),
        };
        assert(desc@ =~= help_text(methods@[i as int].help));
        let mut parts: Vec<String> = Vec::new();
        parts.push(methods[i].name.clone());
        parts.push(desc.clone());
        assert(text::texts(parts@) =~= seq![methods@[i as int].name@, desc@]);
        let hash = digest_texts(&parts);
        out.push(MethodSchema::new(methods[i].name.clone(), desc, hash));
        i += 1;
    }
    out
}

/// The schema of an activation that says no more than its names and help texts, or the first
/// clash among its names.
pub fn plugin_schema(
    namespace: String,
    version: String,
    description: String,
    long_description: Option<String>,
    methods: &Vec<MethodHelp>,
) -> (r: Result<PluginSchema, Collision>)
    ensures
        match r {
            Ok(s) => {
                &&& is_hashed(s)
                &&& s.namespace == namespace
                &&& s.version == version
                &&& s.description == description
                &&& s.long_description == long_description
                &&& s.children is None
                &&& s.request is None
                &&& s.deprecation is None
                &&& s.methods@.len() == methods@.len()
                &&& forall|i: int| 0 <= i < methods@.len() ==> follows_from(#[trigger] s.methods@[i], methods@[i])
                &&& first_repeat(help_names(methods@), 0) is None
            },
            Err(c) => c.kind == CollisionKind::DuplicateMethod && first_repeat(help_names(methods@), 0) == Some(
                c.name@,
            ),
        },
{
    let schemas = schemas_from_help(methods);
    assert(schema_names(schemas@) =~= help_names(methods@));
    match PluginSchema::validate_no_collisions(&schemas, None) {
        Some(c) => Err(c),
        None => Ok(
            match long_description {
                Some(long) => PluginSchema::leaf_with_long_description(
                    namespace,
                    version,
                    description,
                    long,
                    schemas,
                ),
                None => PluginSchema::leaf(namespace, version, description, schemas),
            },
        ),
    }
}

/// The names of methods with their help texts, in order.
pub open spec fn help_names(methods: Seq<MethodHelp>) -> Seq<Seq<char>> {
    Seq::new(methods.len(), |i: int| methods[i].name@)
}

/// The types that a JSON schema knows.
#[derive(Debug, Clone, Copy, PartialEq, Eq, Structural)]
pub enum SchemaType {
    Object,
    Array,
    String,
    Number,
    Integer,
    Boolean,
    Null,
}

/// A JSON schema of a set of methods.
pub struct Schema {
    pub schema_version: Option<String>,
    pub title: Option<String>,
    pub description: Option<String>,
    pub schema_type: Option<Json>,
    pub properties: Option<Vec<(String, SchemaProperty)>>,
    pub required: Option<Vec<String>>,
    pub one_of: Option<Vec<Schema>>,
    pub defs: Option<Vec<(String, Json)>>,
    pub additional: Vec<(String, Json)>,
}

/// A property in a JSON schema.
pub struct SchemaProperty {
    pub property_type: Option<Json>,
    pub description: Option<String>,
    pub format: Option<String>,
    pub items: Option<Box<SchemaProperty>>,
    pub properties: Option<Vec<(String, SchemaProperty)>>,
    pub required: Option<Vec<String>>,
    pub default: Option<Json>,
    pub enum_values: Option<Vec<Json>>,
    pub reference: Option<String>,
    pub additional: Vec<(String, Json)>,
}

/// The version of JSON schema that schemas here are written in.
pub const SCHEMA_VERSION: &'static str = "http://json-schema.org/draft-07/schema#";

/// The property that names the method of a variant, where the variant has one.
pub open spec fn method_property(variant: Schema) -> Option<SchemaProperty> {
    match variant.properties {
        Some(props) => text::first_under(props@, "method"@),
        None => None,
    }
}

/// The constant of a property, where it has one.
pub open spec fn constant_of(p: SchemaProperty) -> Option<JsonView> {
    json::entry_at(json::entries_view(p.additional@), "const"@)
}

/// The first of the values that a property admits, where they are listed.
pub open spec fn first_value(p: SchemaProperty) -> Option<JsonView> {
    match p.enum_values {
        Some(vals) => if vals@.len() > 0 {
            Some(vals@[0]@)
        } else {
            None
        },
        None => None,
    }
}

/// The text of a value, where it is one.
pub open spec fn text_in(v: Option<JsonView>) -> Option<Seq<char>> {
    match v {
        Some(JsonView::Text(t)) => Some(t),
        _ => None,
    }
}

/// Whether a variant is that of a method: its constant or its first value is the name.
pub open spec fn is_variant_of(variant: Schema, name: Seq<char>) -> bool {
    match method_property(variant) {
        Some(p) => text_in(constant_of(p)) == Some(name) || text_in(first_value(p)) == Some(name),
        None => false,
    }
}

/// The name of the method of a variant: its constant where it has one, else its first value.
pub open spec fn variant_name(variant: Schema) -> Option<Seq<char>> {
    match method_property(variant) {
        Some(p) => match constant_of(p) {
            Some(c) => text_in(Some(c)),
            None => text_in(first_value(p)),
        },
        None => None,
    }
}

/// The variants of a schema.
pub open spec fn variants_of(s: Schema) -> Seq<Schema> {
    match s.one_of {
        Some(v) => v@,
        None => Seq::empty(),
    }
}

/// The names of the methods of variants, in order; variants without one are passed over.
pub open spec fn variant_names(variants: Seq<Schema>) -> Seq<Seq<char>>
    decreases variants.len(),
{
    if variants.len() == 0 {
        Seq::empty()
    } else {
        let before = variant_names(variants.drop_last());
        match variant_name(variants.last()) {
            Some(n) => before.push(n),
            None => before,
        }
    }
}

/// A property of a type and nothing else.
pub open spec fn is_plain_property(p: SchemaProperty, kind: Seq<char>) -> bool {
    &&& p.property_type is Some && p.property_type->0@ == JsonView::Text(kind)
    &&& p.description is None
    &&& p.required is None
    &&& p.default is None
    &&& p.enum_values is None
    &&& p.reference is None
    &&& p.additional@.len() == 0
}

impl SchemaProperty {
    fn plain(kind: &str) -> (r: Self)
        ensures
            is_plain_property(r, kind@),
            r.format is None,
            r.items is None,
            r.properties is None,
    {
        SchemaProperty {
            property_type: Some(Json::text(kind)),
            description: None,
            format: None,
            items: None,
            properties: None,
            required: None,
            default: None,
            enum_values: None,
            reference: None,
            additional: Vec::new(),
        }
    }

    /// A string.
    pub fn string() -> (r: Self)
        ensures
            is_plain_property(r, "string"@),
            r.format is None,
            r.items is None,
            r.properties is None,
    {
        SchemaProperty::plain("string")
    }

    /// A string that is an identifier.
    pub fn uuid() -> (r: Self)
        ensures
            is_plain_property(r, "string"@),
            text::opt_text(r.format) == Some("uuid"@),
            r.items is None,
            r.properties is None,
    {
        let mut p = SchemaProperty::plain("string");
        p.format = Some("uuid".to_owned());
        p
    }

    /// An integer.
    pub fn integer() -> (r: Self)
        ensures
            is_plain_property(r, "integer"@),
            r.format is None,
            r.items is None,
            r.properties is None,
    {
        SchemaProperty::plain("integer")
    }

    /// An object without properties.
    pub fn object() -> (r: Self)
        ensures
            is_plain_property(r, "object"@),
            r.format is None,
            r.items is None,
            r.properties is Some && r.properties->0@.len() == 0,
    {
        let mut p = SchemaProperty::plain("object");
        p.properties = Some(Vec::new());
        p
    }

    /// An array of items.
    pub fn array(items: SchemaProperty) -> (r: Self)
        ensures
            is_plain_property(r, "array"@),
            r.format is None,
            r.items == Some(Box::new(items)),
            r.properties is None,
    {
        let mut p = SchemaProperty::plain("array");
        p.items = Some(Box::new(items));
        p
    }

    /// The same property with a description.
    pub fn with_description(self, description: String) -> (r: Self)
        ensures
            r == (SchemaProperty { description: Some(description), ..self }),
    {
        let mut p = self;
        p.description = Some(description);
        p
    }

    /// The same property with a default.
    pub fn with_default(self, default: Json) -> (r: Self)
        ensures
            r == (SchemaProperty { default: Some(default), ..self }),
    {
        let mut p = self;
        p.default = Some(default);
        p
    }

    /// The same property with a property under a name.
    pub fn with_property(self, name: String, property: SchemaProperty) -> (r: Self)
        ensures
            r == (SchemaProperty { properties: r.properties, ..self }),
            puts_property(self.properties, r.properties, name@, property),
    {
        let mut p = self;
        let mut props = match p.properties {
            Some(props) => props,
            None => Vec::new(),
        };
        put_under(&mut props, name, property);
        p.properties = Some(props);
        p
    }
}

/// What properties that may be missing hold under a name.
pub open spec fn property_under(props: Option<Vec<(String, SchemaProperty)>>, name: Seq<char>) -> Option<
    SchemaProperty,
> {
    match props {
        Some(p) => text::first_under(p@, name),
        None => None,
    }
}

/// Whether properties changed by one property under a name.
pub open spec fn puts_property(
    before: Option<Vec<(String, SchemaProperty)>>,
    after: Option<Vec<(String, SchemaProperty)>>,
    name: Seq<char>,
    property: SchemaProperty,
) -> bool {
    &&& after is Some
    &&& forall|n: Seq<char>| #[trigger] property_under(after, n) == (if n == name {
        Some(property)
    } else {
        property_under(before, n)
    })
}

/// The name of the method of a variant.
fn name_of_variant(variant: &Schema) -> (r: Option<String>)
    ensures
        text::opt_text(r) == variant_name(*variant),
{
    match &variant.properties {
        Some(props) => match get_under(props, "method") {
            Some(p) => {
                match json::find_entry(&p.additional, "const") {
                    Some(c) => match c.as_text() {
                        Some(t) => Some(t.to_owned()),
                        None => None,
                    },
                    None => match &p.enum_values {
                        Some(vals) => if vals.len() > 0 {
                            match vals[0].as_text() {
                                Some(t) => Some(t.to_owned()),
                                None => None,
                            }
                        } else {
                            None
                        },
                        None => None,
                    },
                }
            },
            None => None,
        },
        None => None,
    }
}

/// Whether a variant is that of a method.
fn variant_is_of(variant: &Schema, name: &str) -> (r: bool)
    ensures
        r == is_variant_of(*variant, name@),
{
    match &variant.properties {
        Some(props) => match get_under(props, "method") {
            Some(p) => {
                match json::find_entry(&p.additional, "const") {
                    Some(c) => match c.as_text() {
                        Some(t) => if same_text(t, name) {
                            return true;
                        },
                        None => {},
                    },
                    None => {},
                }
                match &p.enum_values {
                    Some(vals) => if vals.len() > 0 {
                        match vals[0].as_text() {
                            Some(t) => same_text(t, name),
                            None => false,
                        }
                    } else {
                        false
                    },
                    None => false,
                }
            },
            None => false,
        },
        None => false,
    }
}

impl Schema {
    /// A schema with a title and a description.
    pub fn new(title: String, description: String) -> (r: Self)
        ensures
            text::opt_text(r.schema_version) == Some(SCHEMA_VERSION@),
            r.title == Some(title),
            r.description == Some(description),
            r.schema_type is None,
            r.properties is None,
            r.required is None,
            r.one_of is None,
            r.defs is None,
            r.additional@.len() == 0,
    {
        Schema {
            schema_version: Some(SCHEMA_VERSION.to_owned()),
            title: Some(title),
            description: Some(description),
            schema_type: None,
            properties: None,
            required: None,
            one_of: None,
            defs: None,
            additional: Vec::new(),
        }
    }

    /// A schema of an object without properties.
    pub fn object() -> (r: Self)
        ensures
            text::opt_text(r.schema_version) == Some(SCHEMA_VERSION@),
            r.title is None,
            r.description is None,
            r.schema_type is Some && r.schema_type->0@ == JsonView::Text("object"@),
            r.properties is Some && r.properties->0@.len() == 0,
            r.required is None,
            r.one_of is None,
            r.defs is None,
            r.additional@.len() == 0,
    {
        Schema {
            schema_version: Some(SCHEMA_VERSION.to_owned()),
            title: None,
            description: None,
            schema_type: Some(Json::text("object")),
            properties: Some(Vec::new()),
            required: None,
            one_of: None,
            defs: None,
            additional: Vec::new(),
        }
    }

    /// The same schema with a property under a name.
    pub fn with_property(self, name: String, property: SchemaProperty) -> (r: Self)
        ensures
            r == (Schema { properties: r.properties, ..self }),
            puts_property(self.properties, r.properties, name@, property),
    {
        let mut s = self;
        let mut props = match s.properties {
            Some(props) => props,
            None => Vec::new(),
        };
        put_under(&mut props, name, property);
        s.properties = Some(props);
        s
    }

    /// The same schema with one more required name.
    pub fn with_required(self, name: String) -> (r: Self)
        ensures
            r == (Schema { required: r.required, ..self }),
            r.required is Some,
            r.required->0@ == (match self.required {
                Some(names) => names@.push(name),
                None => seq![name],
            }),
    {
        let mut s = self;
        let mut names: Vec<String> = match s.required {
            Some(names) => names,
            None => Vec::new(),
        };
        names.push(name);
        assert(self.required is None ==> names@ =~= seq![name]);
        s.required = Some(names);
        s
    }

    /// The same schema with a description.
    pub fn with_description(self, description: String) -> (r: Self)
        ensures
            r == (Schema { description: Some(description), ..self }),
    {
        let mut s = self;
        s.description = Some(description);
        s
    }

    /// The first variant that is that of a method.
    pub fn get_method_schema(&self, method_name: &str) -> (r: Option<&Schema>)
        ensures
            match r {
                Some(v) => exists|i: int|
                    0 <= i < variants_of(*self).len() && *v == #[trigger] variants_of(*self)[i] && is_variant_of(
                        *v,
                        method_name@,
                    ) && forall|j: int| 0 <= j < i ==> !is_variant_of(#[trigger] variants_of(*self)[j], method_name@),
                None => forall|j: int|
                    0 <= j < variants_of(*self).len() ==> !is_variant_of(
                        #[trigger] variants_of(*self)[j],
                        method_name@,
                    ),
            },
    {
        match &self.one_of {
            Some(variants) => {
                let mut i: usize = 0;
                while i < variants.len()
                    invariant
                        self.one_of == Some(*variants),
                        i <= variants.len(),
                        forall|j: int| 0 <= j < i ==> !is_variant_of(#[trigger] variants@[j], method_name@),
                    decreases variants.len() - i,
                {
                    if variant_is_of(&variants[i], method_name) {
                        assert(variants_of(*self)[i as int] == variants@[i as int]);
                        return Some(&variants[i]);
                    }
                    i += 1;
                }
                None
            },
            None => None,
        }
    }

    /// The names of the methods of the variants, in order.
    pub fn list_methods(&self) -> (r: Vec<String>)
        ensures
            text::texts(r@) == variant_names(variants_of(*self)),
    {
        let mut out: Vec<String> = Vec::new();
        assert(text::texts(out@) =~= Seq::empty());
        match &self.one_of {
            Some(variants) => {
                let mut i: usize = 0;
                assert(variants@.take(0) =~= Seq::empty());
                while i < variants.len()
                    invariant
                        i <= variants.len(),
                        text::texts(out@) == variant_names(variants@.take(i as int)),
                    decreases variants.len() - i,
                {
                    let ghost before = text::texts(out@);
                    proof {
                        assert(variants@.take(i + 1).drop_last() =~= variants@.take(i as int));
                        assert(variants@.take(i + 1).last() == variants@[i as int]);
                    }
                    match name_of_variant(&variants[i]) {
                        Some(n) => {
                            let ghost t = n@;
                            out.push(n);
                            assert(text::texts(out@) =~= before.push(t));
                        },
                        None => {},
                    }
                    i += 1;
                }
                assert(variants@.take(variants@.len() as int) =~= variants@);
                out
            },
            None => out,
        }
    }
}

/// What the whole of an activation is hashed over: the hash of its methods and, behind it, that of
/// its children where it has any.
spec fn hashed_parts(s: PluginSchema) -> Seq<Seq<char>> {
    match s.children_hash {
        Some(ch) => seq![s.self_hash@, ch@],
        None => seq![s.self_hash@],
    }
}

/// The hash of an activation is the digest of the hash of its methods followed, where there are
/// children, by the hash of its children. The hash of the methods is the digest of theirs, one by
/// one, and that of the children likewise.
pub proof fn law_a_hash_is_taken_over_every_part(s: PluginSchema)
    requires
        is_hashed(s),
    ensures
        s.children_hash is Some <==> s.children is Some,
        s.children_hash is None ==> s.hash@ == digest::digest(seq![s.self_hash@]),
        s.children_hash matches Some(ch) ==> s.hash@ == digest::digest(seq![s.self_hash@, ch@]),
        s.self_hash@ == digest::digest(Seq::new(s.methods@.len(), |i: int| s.methods@[i].hash@)),
        s.children matches Some(kids) ==> s.children_hash->0@ == digest::digest(
            Seq::new(kids@.len(), |i: int| kids@[i].hash@),
        ),
{
    assert(method_hashes(s.methods@) =~= Seq::new(s.methods@.len(), |i: int| s.methods@[i].hash@));
    if s.children is Some {
        let kids = s.children->0;
        assert(child_hashes(kids@) =~= Seq::new(kids@.len(), |i: int| kids@[i].hash@));
    }
}

/// A change of any part shows in what is hashed. Two activations have the same hash exactly where
/// the hasher ends alike on the two, and the same is hashed of them only where both the hashes of
/// their methods and those of their children are the same. The same holds of the methods, where
/// any hash of a method counts, and of the children, where any hash of a child counts.
pub proof fn law_a_change_of_any_part_is_hashed(a: PluginSchema, b: PluginSchema)
    requires
        is_hashed(a),
        is_hashed(b),
    ensures
        ({
            let fed = |s: PluginSchema|
                match s.children_hash {
                    Some(ch) => digest::hashed(seq![s.self_hash@, ch@]),
                    None => digest::hashed(seq![s.self_hash@]),
                };
            &&& a.hash@ == b.hash@ <==> DefaultHasher::spec_finish(fed(a)) == DefaultHasher::spec_finish(fed(b))
            &&& fed(a) == fed(b) ==> a.self_hash@ == b.self_hash@ && text::opt_text(a.children_hash) == text::opt_text(
                b.children_hash,
            )
        }),
        ({
            let fed = |s: PluginSchema| digest::hashed(Seq::new(s.methods@.len(), |i: int| s.methods@[i].hash@));
            &&& a.self_hash@ == b.self_hash@ <==> DefaultHasher::spec_finish(fed(a)) == DefaultHasher::spec_finish(
                fed(b),
            )
            &&& fed(a) == fed(b) ==> a.methods@.len() == b.methods@.len() && forall|i: int|
                0 <= i < a.methods@.len() ==> (#[trigger] a.methods@[i]).hash@ == b.methods@[i].hash@
        }),
        a.children is Some && b.children is Some ==> {
            let fed = |s: PluginSchema| digest::hashed(Seq::new(s.children->0@.len(), |i: int| s.children->0@[i].hash@));
            &&& text::opt_text(a.children_hash) == text::opt_text(b.children_hash) <==> DefaultHasher::spec_finish(
                fed(a),
            ) == DefaultHasher::spec_finish(fed(b))
            &&& fed(a) == fed(b) ==> a.children->0@.len() == b.children->0@.len() && forall|i: int|
                0 <= i < a.children->0@.len() ==> (#[trigger] a.children->0@[i]).hash@ == b.children->0@[i].hash@
        },
{
    law_a_hash_is_taken_over_every_part(a);
    law_a_hash_is_taken_over_every_part(b);
    let p = hashed_parts(a);
    let q = hashed_parts(b);
    digest::law_a_digest_is_told_by_the_hasher(p, q);
    if digest::hashed(p) == digest::hashed(q) {
        digest::law_what_is_hashed_tells_the_texts(p, q);
        assert(p.len() == q.len() && p[0] == q[0]);
        if p.len() == 2 {
            assert(p[1] == q[1]);
        }
    }
    lemma_method_hashes_tell(a, b);
    if a.children is Some && b.children is Some {
        lemma_child_hashes_tell(a, b);
    }
}

proof fn lemma_method_hashes_tell(a: PluginSchema, b: PluginSchema)
    requires
        is_hashed(a),
        is_hashed(b),
    ensures
        ({
            let fed = |s: PluginSchema| digest::hashed(Seq::new(s.methods@.len(), |i: int| s.methods@[i].hash@));
            &&& a.self_hash@ == b.self_hash@ <==> DefaultHasher::spec_finish(fed(a)) == DefaultHasher::spec_finish(
                fed(b),
            )
            &&& fed(a) == fed(b) ==> a.methods@.len() == b.methods@.len() && forall|i: int|
                0 <= i < a.methods@.len() ==> (#[trigger] a.methods@[i]).hash@ == b.methods@[i].hash@
        }),
{
    law_a_hash_is_taken_over_every_part(a);
    law_a_hash_is_taken_over_every_part(b);
    let x = Seq::new(a.methods@.len(), |i: int| a.methods@[i].hash@);
    let y = Seq::new(b.methods@.len(), |i: int| b.methods@[i].hash@);
    digest::law_a_digest_is_told_by_the_hasher(x, y);
    if digest::hashed(x) == digest::hashed(y) {
        digest::law_what_is_hashed_tells_the_texts(x, y);
        assert(x.len() == y.len());
        assert forall|i: int| 0 <= i < a.methods@.len() implies (#[trigger] a.methods@[i]).hash@ == b.methods@[i].hash@ by {
            assert(x[i] == y[i]);
        }
    }
}

proof fn lemma_child_hashes_tell(a: PluginSchema, b: PluginSchema)
    requires
        is_hashed(a),
        is_hashed(b),
        a.children is Some,
        b.children is Some,
    ensures
        ({
            let fed = |s: PluginSchema| digest::hashed(Seq::new(s.children->0@.len(), |i: int| s.children->0@[i].hash@));
            &&& text::opt_text(a.children_hash) == text::opt_text(b.children_hash) <==> DefaultHasher::spec_finish(
                fed(a),
            ) == DefaultHasher::spec_finish(fed(b))
            &&& fed(a) == fed(b) ==> a.children->0@.len() == b.children->0@.len() && forall|i: int|
                0 <= i < a.children->0@.len() ==> (#[trigger] a.children->0@[i]).hash@ == b.children->0@[i].hash@
        }),
{
    law_a_hash_is_taken_over_every_part(a);
    law_a_hash_is_taken_over_every_part(b);
    let x = Seq::new(a.children->0@.len(), |i: int| a.children->0@[i].hash@);
    let y = Seq::new(b.children->0@.len(), |i: int| b.children->0@[i].hash@);
    digest::law_a_digest_is_told_by_the_hasher(x, y);
    if digest::hashed(x) == digest::hashed(y) {
        digest::law_what_is_hashed_tells_the_texts(x, y);
        assert(x.len() == y.len());
        assert forall|i: int| 0 <= i < a.children->0@.len() implies (#[trigger] a.children->0@[i]).hash@
            == b.children->0@[i].hash@ by {
            assert(x[i] == y[i]);
        }
    }
}

/// The hash of a method that says no more than its name and its help text is the digest of the
/// two, so that a change of either is hashed.
pub proof fn law_a_method_is_hashed_by_name_and_help(m: MethodSchema, h: MethodHelp)
    requires
        follows_from(m, h),
    ensures
        m.name@ == h.name@,
        h.help matches Some(t) ==> m.description@ == t@,
        h.help is None ==> m.description@.len() == 0,
        m.hash@ == digest::digest(seq![m.name@, m.description@]),
{
}

proof fn lemma_first_repeat(names: Seq<Seq<char>>, i: int)
    requires
        0 <= i <= names.len(),
    ensures
        match first_repeat(names, i) {
            Some(name) => exists|k: int, j: int|
                i <= k < names.len() && 0 <= j < k && #[trigger] names[j] == name && #[trigger] names[k] == name,
            None => forall|j: int, k: int| 0 <= j < k < names.len() && i <= k ==> #[trigger] names[j] != #[trigger] names[k],
        },
    decreases names.len() - i,
{
    if i < names.len() {
        if names.take(i).contains(names[i]) {
            let j = choose|j: int| 0 <= j < i && names.take(i)[j] == names[i];
            assert(names[j] == names[i]);
        } else {
            lemma_first_repeat(names, i + 1);
            if first_repeat(names, i + 1) is None {
                assert forall|j: int, k: int| 0 <= j < k < names.len() && i <= k implies #[trigger] names[j]
                    != #[trigger] names[k] by {
                    if k == i {
                        assert(names.take(i)[j] == names[j]);
                    }
                }
            }
        }
    }
}

proof fn lemma_schema_at(methods: Seq<MethodSchema>, name: Seq<char>)
    ensures
        0 <= schema_at(methods, name) <= methods.len(),
        schema_at(methods, name) < methods.len() ==> methods[schema_at(methods, name)].name@ == name,
        forall|j: int| 0 <= j < schema_at(methods, name) ==> (#[trigger] methods[j]).name@ != name,
    decreases methods.len(),
{
    if methods.len() > 0 && methods[0].name@ != name {
        let rest = methods.skip(1);
        lemma_schema_at(rest, name);
        assert forall|j: int| 0 <= j < schema_at(methods, name) implies (#[trigger] methods[j]).name@ != name by {
            if j > 0 {
                assert(rest[j - 1] == methods[j]);
            }
        }
        if schema_at(methods, name) < methods.len() {
            assert(rest[schema_at(rest, name)] == methods[schema_at(methods, name)]);
        }
    }
}

/// Whether a name is that of a method that leads to no child.
spec fn names_a_call(methods: Seq<MethodSchema>, name: Seq<char>) -> bool {
    exists|i: int| 0 <= i < methods.len() && (#[trigger] methods[i]).name@ == name && methods[i].role is Rpc
}

proof fn lemma_child_clash(methods: Seq<MethodSchema>, kids: Seq<Seq<char>>, i: int)
    requires
        0 <= i <= kids.len(),
        forall|j: int, k: int|
            0 <= j < k < methods.len() ==> (#[trigger] methods[j]).name@ != (#[trigger] methods[k]).name@,
    ensures
        match child_clash(methods, kids, i) {
            Some((kind, name)) => {
                &&& kind == CollisionKind::DuplicateChild ==> exists|j: int, k: int|
                    0 <= j < k < kids.len() && #[trigger] kids[j] == name && #[trigger] kids[k] == name
                &&& kind == CollisionKind::MethodChild ==> kids.contains(name) && names_a_call(methods, name)
                &&& kind != CollisionKind::DuplicateMethod
            },
            None => {
                &&& forall|j: int, k: int| 0 <= j < k < kids.len() && i <= k ==> #[trigger] kids[j] != #[trigger] kids[k]
                &&& forall|k: int| i <= k < kids.len() ==> !names_a_call(methods, #[trigger] kids[k])
            },
        },
    decreases kids.len() - i,
{
    if i < kids.len() {
        lemma_schema_at(methods, kids[i]);
        let at = schema_at(methods, kids[i]);
        assert(kids.contains(kids[i]));
        if kids.take(i).contains(kids[i]) {
            let j = choose|j: int| 0 <= j < i && kids.take(i)[j] == kids[i];
            assert(kids[j] == kids[i]);
        } else if at < methods.len() && !is_child_role(methods[at].role) {
            assert(methods[at].role is Rpc);
        } else {
            lemma_child_clash(methods, kids, i + 1);
            if child_clash(methods, kids, i + 1) is None {
                assert forall|j: int, k: int| 0 <= j < k < kids.len() && i <= k implies #[trigger] kids[j]
                    != #[trigger] kids[k] by {
                    if k == i {
                        assert(kids.take(i)[j] == kids[j]);
                    }
                }
                assert(!names_a_call(methods, kids[i])) by {
                    if names_a_call(methods, kids[i]) {
                        let m = choose|m: int|
                            0 <= m < methods.len() && (#[trigger] methods[m]).name@ == kids[i] && methods[m].role is Rpc;
                        if at < m {
                            assert(methods[at].name@ != methods[m].name@);
                        } else if m < at {
                            assert(methods[m].name@ != kids[i]);
                        }
                    }
                }
            }
        }
    }
}

/// The names of an activation do not clash exactly where no two methods have the same name, no two
/// children have the same name, and no child has the name of a method that leads to no child.
/// Where they clash, what is reported is such a clash: methods before children.
pub proof fn law_a_clash_is_found_exactly_where_there_is_one(methods: Seq<MethodSchema>, kids: Seq<Seq<char>>)
    ensures
        clash(methods, kids) is None <==> {
            &&& forall|j: int, k: int|
                0 <= j < k < methods.len() ==> (#[trigger] methods[j]).name@ != (#[trigger] methods[k]).name@
            &&& forall|j: int, k: int| 0 <= j < k < kids.len() ==> #[trigger] kids[j] != #[trigger] kids[k]
            &&& forall|i: int, k: int|
                0 <= i < methods.len() && 0 <= k < kids.len() && (#[trigger] methods[i]).name@ == (#[trigger] kids[k])
                    ==> !(methods[i].role is Rpc)
        },
        clash(methods, kids) matches Some((kind, name)) ==> {
            &&& kind == CollisionKind::DuplicateMethod <==> exists|j: int, k: int|
                0 <= j < k < methods.len() && (#[trigger] methods[j]).name@ == (#[trigger] methods[k]).name@
            &&& kind == CollisionKind::DuplicateMethod ==> exists|j: int, k: int|
                0 <= j < k < methods.len() && (#[trigger] methods[j]).name@ == name && (#[trigger] methods[k]).name@
                    == name
            &&& kind == CollisionKind::DuplicateChild ==> exists|j: int, k: int|
                0 <= j < k < kids.len() && #[trigger] kids[j] == name && #[trigger] kids[k] == name
            &&& kind == CollisionKind::MethodChild ==> kids.contains(name) && exists|i: int|
                0 <= i < methods.len() && (#[trigger] methods[i]).name@ == name && methods[i].role is Rpc
        },
{
    let names = schema_names(methods);
    lemma_first_repeat(names, 0);
    match first_repeat(names, 0) {
        Some(name) => {
            let (k, j) = choose|k: int, j: int|
                0 <= k < names.len() && 0 <= j < k && #[trigger] names[j] == name && #[trigger] names[k] == name;
            assert(methods[j].name@ == name && methods[k].name@ == name);
        },
        None => {
            assert forall|j: int, k: int| 0 <= j < k < methods.len() implies (#[trigger] methods[j]).name@ != (
            #[trigger] methods[k]).name@ by {
                assert(names[j] != names[k]);
            }
            lemma_child_clash(methods, kids, 0);
            match child_clash(methods, kids, 0) {
                Some((kind, name)) => {
                    if kind == CollisionKind::MethodChild {
                        let k = choose|k: int| 0 <= k < kids.len() && kids[k] == name;
                        let i = choose|i: int|
                            0 <= i < methods.len() && (#[trigger] methods[i]).name@ == name && methods[i].role is Rpc;
                        assert(methods[i].name@ == kids[k]);
                    }
                },
                None => {
                    assert forall|i: int, k: int|
                        0 <= i < methods.len() && 0 <= k < kids.len() && (#[trigger] methods[i]).name@ == (
                        #[trigger] kids[k]) implies !(methods[i].role is Rpc) by {
                        assert(!names_a_call(methods, kids[k]));
                    }
                },
            }
        },
    }
}

/// The children that roles imply are the methods that lead to children, in their order, each under
/// its own name and description and without a hash.
pub proof fn law_each_child_role_makes_a_child(methods: Seq<MethodSchema>)
    ensures
        role_children(methods) == methods.filter(|m: MethodSchema| !(m.role is Rpc)).map_values(
            |m: MethodSchema|
                ChildView { namespace: m.name@, description: m.description@, hash: Seq::empty() },
        ),
    decreases methods.len(),
{
    reveal(Seq::filter);
    let leads = |m: MethodSchema| !(m.role is Rpc);
    let shown = |m: MethodSchema| ChildView { namespace: m.name@, description: m.description@, hash: Seq::empty() };
    if methods.len() > 0 {
        law_each_child_role_makes_a_child(methods.drop_last());
        let rest = methods.drop_last().filter(leads);
        if leads(methods.last()) {
            assert(rest.push(methods.last()).map_values(shown) =~= rest.map_values(shown).push(shown(methods.last())));
        }
    }
    assert(role_children(methods) =~= methods.filter(leads).map_values(shown));
}

/// A hint is filled in exactly where a credential is demanded and none is hinted at: then it is the
/// one that was given. Nothing else of the method changes, and nothing at all where there is
/// nothing to fill in.
pub proof fn law_a_hint_is_filled_where_it_is_missing(m: MethodSchema, site: AttachmentSite)
    ensures
        with_hint(m, site) == (MethodSchema {
            requires_credential: with_hint(m, site).requires_credential,
            ..m
        }),
        m.requires_credential is None ==> with_hint(m, site) == m,
        m.requires_credential matches Some(req) ==> {
            let filled = with_hint(m, site).requires_credential;
            &&& filled is Some
            &&& filled->0.kind == req.kind
            &&& filled->0.scopes == req.scopes
            &&& req.site_hint is None ==> filled->0.site_hint == Some(site)
            &&& req.site_hint is Some ==> filled->0.site_hint == req.site_hint
        },
{
}

/// A warning is given for each method that returns a field of the reserved name, in the methods'
/// order, and for no other; it names the activation and the method.
pub proof fn law_each_reserved_field_is_warned_of(namespace: Seq<char>, methods: Seq<MethodSchema>)
    ensures
        reserved_field_warnings(namespace, methods) == methods.filter(
            |m: MethodSchema| m.returns is Some && credential_envelope::declares_reserved_field(m.returns->0@),
        ).map_values(
            |m: MethodSchema|
                WarningView { plugin: namespace, method: m.name@, message: credential_envelope::COLLISION_MESSAGE@ },
        ),
    decreases methods.len(),
{
    reveal(Seq::filter);
    let reserved = |m: MethodSchema|
        m.returns is Some && credential_envelope::declares_reserved_field(m.returns->0@);
    let warned = |m: MethodSchema|
        WarningView { plugin: namespace, method: m.name@, message: credential_envelope::COLLISION_MESSAGE@ };
    if methods.len() > 0 {
        law_each_reserved_field_is_warned_of(namespace, methods.drop_last());
        let rest = methods.drop_last().filter(reserved);
        if reserved(methods.last()) {
            assert(rest.push(methods.last()).map_values(warned) =~= rest.map_values(warned).push(
                warned(methods.last()),
            ));
        }
    }
    assert(reserved_field_warnings(namespace, methods) =~= methods.filter(reserved).map_values(warned));
}

/// A variant whose method is a constant text is the variant of that method, and is listed under
/// it; so is one without a constant whose first value is a text. One without a method property is
/// that of no method. What is listed is found.
pub proof fn law_a_variant_is_named_by_its_method(variant: Schema, p: SchemaProperty, name: Seq<char>)
    requires
        variant.properties is Some,
        text::first_under(variant.properties->0@, "method"@) == Some(p),
    ensures
        json::entry_at(json::entries_view(p.additional@), "const"@) == Some(JsonView::Text(name)) ==> is_variant_of(
            variant,
            name,
        ) && variant_name(variant) == Some(name),
        json::entry_at(json::entries_view(p.additional@), "const"@) is None && p.enum_values is Some
            && p.enum_values->0@.len() > 0 && p.enum_values->0@[0]@ == JsonView::Text(name) ==> is_variant_of(
            variant,
            name,
        ) && variant_name(variant) == Some(name),
        variant_name(variant) == Some(name) ==> is_variant_of(variant, name),
        is_variant_of(variant, name) ==> json::entry_at(json::entries_view(p.additional@), "const"@) == Some(
            JsonView::Text(name),
        ) || (p.enum_values is Some && p.enum_values->0@.len() > 0 && p.enum_values->0@[0]@ == JsonView::Text(name)),
{
}

/// The names of the methods of variants are listed one by one, in the variants' order.
pub proof fn law_each_named_variant_is_listed(variants: Seq<Schema>)
    ensures
        variant_names(variants) == variants.filter(|v: Schema| variant_name(v) is Some).map_values(
            |v: Schema| variant_name(v)->0,
        ),
    decreases variants.len(),
{
    reveal(Seq::filter);
    let named = |v: Schema| variant_name(v) is Some;
    let name = |v: Schema| variant_name(v)->0;
    if variants.len() > 0 {
        law_each_named_variant_is_listed(variants.drop_last());
        let rest = variants.drop_last().filter(named);
        if named(variants.last()) {
            assert(rest.push(variants.last()).map_values(name) =~= rest.map_values(name).push(name(variants.last())));
        }
    }
    assert(variant_names(variants) =~= variants.filter(named).map_values(name));
}

/// A clash is told with the activation that has it, of what kind it is and the name that clashes.
pub proof fn law_a_clash_is_told_with_its_names(namespace: Seq<char>, name: Seq<char>)
    ensures
        clash_message(namespace, CollisionKind::DuplicateMethod, name) == "Name collision in plugin '"@ + namespace
            + "': duplicate method '"@ + name + "'"@,
        clash_message(namespace, CollisionKind::MethodChild, name) == "Name collision in plugin '"@ + namespace
            + "': method/child collision for '"@ + name + "'"@,
        clash_message(namespace, CollisionKind::DuplicateChild, name) == "Name collision in plugin '"@ + namespace
            + "': duplicate child for '"@ + name + "'"@,
{
}

/// Filling in hints changes nothing of the methods but the hint of a demand that has none: as
/// many methods stand in the same order, with the same names, hashes and scopes.
pub proof fn law_hints_change_nothing_else(before: Seq<MethodSchema>, after: Seq<MethodSchema>, site: AttachmentSite)
    requires
        hints_filled(before, after, site),
    ensures
        after.len() == before.len(),
        forall|i: int|
            0 <= i < after.len() ==> {
                let b = before[i];
                let a = #[trigger] after[i];
                &&& a.name == b.name
                &&& a.hash == b.hash
                &&& a.description == b.description
                &&& a.params == b.params
                &&& a.public == b.public
                &&& a.requires_credential is None <==> b.requires_credential is None
                &&& b.requires_credential is Some ==> {
                    let x = a.requires_credential->0;
                    let y = b.requires_credential->0;
                    &&& x.kind == y.kind
                    &&& x.scopes == y.scopes
                    &&& y.site_hint is Some ==> x.site_hint == y.site_hint
                    &&& y.site_hint is None ==> x.site_hint == Some(site)
                }
            },
{
}

/// A property that is put under a name is read there: the others are read as before.
pub proof fn law_a_put_property_is_read(
    before: Option<Vec<(String, SchemaProperty)>>,
    after: Vec<(String, SchemaProperty)>,
    name: Seq<char>,
    property: SchemaProperty,
    i: int,
)
    requires
        puts_property(before, Some(after), name, property),
        0 <= i < after@.len(),
        after@[i].0@ == name,
        forall|j: int| 0 <= j < i ==> (#[trigger] after@[j]).0@ != name,
    ensures
        after@[i].1 == property,
        before is None ==> forall|j: int| 0 <= j < after@.len() ==> (#[trigger] after@[j]).0@ == name,
{
    law_the_first_property_of_a_name_is_read(after@, name, i);
    assert(property_under(Some(after), name) == Some(property));
    if before is None {
        assert forall|j: int| 0 <= j < after@.len() implies (#[trigger] after@[j]).0@ == name by {
            if after@[j].0@ != name {
                assert(property_under(Some(after), after@[j].0@) is None);
                law_a_name_that_stands_is_read(after@, j);
            }
        }
    }
}

/// What is read under a name is the first property that stands under it.
pub proof fn law_the_first_property_of_a_name_is_read(props: Seq<(String, SchemaProperty)>, name: Seq<char>, i: int)
    requires
        0 <= i <= props.len(),
        forall|j: int| 0 <= j < i ==> (#[trigger] props[j]).0@ != name,
        i < props.len() ==> props[i].0@ == name,
    ensures
        i < props.len() ==> text::first_under(props, name) == Some(props[i].1),
        i == props.len() ==> text::first_under(props, name) is None,
    decreases props.len(),
{
    if props.len() > 0 && i > 0 {
        let rest = props.skip(1);
        assert(props[0].0@ != name);
        assert forall|j: int| 0 <= j < i - 1 implies (#[trigger] rest[j]).0@ != name by {
            assert(rest[j] == props[j + 1]);
        }
        if i < props.len() {
            assert(rest[i - 1] == props[i]);
        }
        law_the_first_property_of_a_name_is_read(rest, name, i - 1);
    }
}

/// Under a name that stands among properties, a property is read.
pub proof fn law_a_name_that_stands_is_read(props: Seq<(String, SchemaProperty)>, i: int)
    requires
        0 <= i < props.len(),
    ensures
        text::first_under(props, props[i].0@) is Some,
    decreases props.len(),
{
    if props[0].0@ != props[i].0@ {
        let rest = props.skip(1);
        assert(rest[i - 1] == props[i]);
        law_a_name_that_stands_is_read(rest, i - 1);
    }
}

/// A summary says what its fields hold, and summaries say it in order; a help text that is
/// missing is empty.
pub proof fn law_a_summary_says_what_it_holds(v: Seq<ChildSummary>, h: String, methods: Seq<MethodHelp>)
    ensures
        child_views(v).len() == v.len(),
        forall|i: int|
            0 <= i < v.len() ==> (#[trigger] child_views(v)[i]).namespace == v[i].namespace@ && child_views(
                v,
            )[i].description == v[i].description@ && child_views(v)[i].hash == v[i].hash@,
        help_text(Some(h)) == h@,
        help_text(None).len() == 0,
        help_names(methods).len() == methods.len(),
        forall|i: int| 0 <= i < methods.len() ==> #[trigger] help_names(methods)[i] == methods[i].name@,
{
}

/// What a method demands are the scopes of the credential that it requires, and nothing where it
/// requires none.
pub proof fn law_a_method_demands_what_its_credential_does(m: MethodSchema)
    ensures
        m.requires_credential is None ==> demanded_of(m).len() == 0,
        m.requires_credential matches Some(rc) ==> {
            &&& demanded_of(m).len() == rc.scopes@.len()
            &&& forall|i: int| 0 <= i < rc.scopes@.len() ==> #[trigger] demanded_of(m)[i] == rc.scopes@[i]@
        },
{
}

/// A plain property says its type and nothing else that it could say, on the wire too.
pub proof fn law_a_plain_property_says_its_type(p: SchemaProperty, kind: Seq<char>)
    requires
        is_plain_property(p, kind),
    ensures
        json::json_get(wire::property_json(p), "type"@) == Some(JsonView::Text(kind)),
        json::json_get(wire::property_json(p), "description"@) is None,
        json::json_get(wire::property_json(p), "required"@) is None,
        json::json_get(wire::property_json(p), "default"@) is None,
        json::json_get(wire::property_json(p), "enum"@) is None,
        json::json_get(wire::property_json(p), "$ref"@) is None,
{
    wire::law_a_property_shows_what_it_says(p);
    assert(wire::is_free(p.additional@, "type"@));
    assert(wire::is_free(p.additional@, "description"@));
    assert(wire::is_free(p.additional@, "required"@));
    assert(wire::is_free(p.additional@, "default"@));
    assert(wire::is_free(p.additional@, "enum"@));
    assert(wire::is_free(p.additional@, "$ref"@));
}

/// A variant that names no method is that of none, and is listed under no name.
pub proof fn law_a_variant_without_a_method_is_of_none(variant: Schema, name: Seq<char>)
    requires
        variant.properties matches Some(props) ==> forall|i: int|
            0 <= i < props@.len() ==> (#[trigger] props@[i]).0@ != "method"@,
    ensures
        !is_variant_of(variant, name),
        variant_name(variant) is None,
{
    if variant.properties is Some {
        let props = variant.properties->0@;
        law_the_first_property_of_a_name_is_read(props, "method"@, props.len() as int);
    }
}

} // verus!
