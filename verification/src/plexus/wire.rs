//! The wire forms of schemas. What a schema does not say does not show.

use crate::json;
use crate::json::{copy_opt_json, put_entry, Json, JsonView};
use crate::plexus::credential_envelope::AttachmentSite;
use crate::plexus::schema;
use crate::plexus::schema::{
    ChildHashes, ChildSummary, CredentialFieldDecl, CredentialIssuer, CredentialKind, CredentialMetadata,
    DeprecationInfo, MethodRole, MethodSchema, ParamSchema, PluginHashes, PluginSchema, RequiredCredential,
    ReturnShape, Schema, SchemaProperty, SchemaResult,
};
use crate::text;
use vstd::prelude::*;

verus! {

/// The entries of an object.
pub type Entries = Seq<(Seq<char>, JsonView)>;

/// The entries with a value under a key, where there is one.
pub open spec fn put_some(entries: Entries, k: Seq<char>, v: Option<JsonView>) -> Entries {
    match v {
        Some(j) => json::put(entries, k, j),
        None => entries,
    }
}

fn put_some_entry(entries: &mut Vec<(String, Json)>, k: &str, v: Option<Json>)
    ensures
        json::entries_view(final(entries)@) == put_some(json::entries_view(old(entries)@), k@, json::opt_json(v)),
{
    match v {
        Some(j) => put_entry(entries, k, j),
        None => {},
    }
}

/// A text that may be missing.
pub open spec fn some_text(s: Option<String>) -> Option<JsonView> {
    match s {
        Some(t) => Some(JsonView::Text(t@)),
        None => None,
    }
}

fn some_text_json(s: &Option<String>) -> (r: Option<Json>)
    ensures
        json::opt_json(r) == some_text(*s),
{
    match s {
        Some(t) => Some(Json::text(t.as_str())),
        None => None,
    }
}

/// A text that may be missing, and is null then.
pub open spec fn text_or_null(s: Option<String>) -> JsonView {
    match s {
        Some(t) => JsonView::Text(t@),
        None => JsonView::Null,
    }
}

fn text_or_null_json(s: &Option<String>) -> (r: Json)
    ensures
        r@ == text_or_null(*s),
{
    match s {
        Some(t) => Json::text(t.as_str()),
        None => Json::Null,
    }
}

fn no_entries() -> (r: Vec<(String, Json)>)
    ensures
        json::entries_view(r@) == Seq::<(Seq<char>, JsonView)>::empty(),
{
    let r: Vec<(String, Json)> = Vec::new();
    assert(json::entries_view(r@) =~= Seq::<(Seq<char>, JsonView)>::empty());
    r
}

fn object(entries: Vec<(String, Json)>) -> (r: Json)
    ensures
        r@ == JsonView::Object(json::entries_view(entries@)),
{
    proof {
        json::lemma_object_view(entries);
    }
    Json::Object(entries)
}

/// The wire form of a role.
pub open spec fn role_json(role: MethodRole) -> JsonView {
    match role {
        MethodRole::Rpc => JsonView::Object(json::put(Seq::empty(), "kind"@, JsonView::Text("rpc"@))),
        MethodRole::StaticChild => JsonView::Object(
            json::put(Seq::empty(), "kind"@, JsonView::Text("static_child"@)),
        ),
        MethodRole::DynamicChild { list_method, search_method } => JsonView::Object(
            put_some(
                put_some(
                    json::put(Seq::empty(), "kind"@, JsonView::Text("dynamic_child"@)),
                    "list_method"@,
                    some_text(list_method),
                ),
                "search_method"@,
                some_text(search_method),
            ),
        ),
    }
}

impl MethodRole {
    /// The wire form.
    pub fn to_json(&self) -> (r: Json)
        ensures
            r@ == role_json(*self),
    {
        let mut e = no_entries();
        match self {
            MethodRole::Rpc => {
                put_entry(&mut e, "kind", Json::text("rpc"));
            },
            MethodRole::StaticChild => {
                put_entry(&mut e, "kind", Json::text("static_child"));
            },
            MethodRole::DynamicChild { list_method, search_method } => {
                put_entry(&mut e, "kind", Json::text("dynamic_child"));
                put_some_entry(&mut e, "list_method", some_text_json(list_method));
                put_some_entry(&mut e, "search_method", some_text_json(search_method));
            },
        }
        object(e)
    }
}

/// The wire form of a deprecation.
pub open spec fn deprecation_json(d: DeprecationInfo) -> JsonView {
    JsonView::Object(
        json::put(
            json::put(
                json::put(Seq::empty(), "since"@, JsonView::Text(d.since@)),
                "removed_in"@,
                JsonView::Text(d.removed_in@),
            ),
            "message"@,
            JsonView::Text(d.message@),
        ),
    )
}

/// The wire form of a deprecation that may be missing.
pub open spec fn some_deprecation(d: Option<DeprecationInfo>) -> Option<JsonView> {
    match d {
        Some(info) => Some(deprecation_json(info)),
        None => None,
    }
}

impl DeprecationInfo {
    /// The wire form.
    pub fn to_json(&self) -> (r: Json)
        ensures
            r@ == deprecation_json(*self),
    {
        let mut e = no_entries();
        put_entry(&mut e, "since", Json::text(self.since.as_str()));
        put_entry(&mut e, "removed_in", Json::text(self.removed_in.as_str()));
        put_entry(&mut e, "message", Json::text(self.message.as_str()));
        object(e)
    }
}

fn some_deprecation_json(d: &Option<DeprecationInfo>) -> (r: Option<Json>)
    ensures
        json::opt_json(r) == some_deprecation(*d),
{
    match d {
        Some(info) => Some(info.to_json()),
        None => None,
    }
}

/// The wire form of a parameter.
pub open spec fn param_json(p: ParamSchema) -> JsonView {
    JsonView::Object(
        put_some(
            json::put(Seq::empty(), "name"@, JsonView::Text(p.name@)),
            "deprecation"@,
            some_deprecation(p.deprecation),
        ),
    )
}

impl ParamSchema {
    /// The wire form.
    pub fn to_json(&self) -> (r: Json)
        ensures
            r@ == param_json(*self),
    {
        let mut e = no_entries();
        put_entry(&mut e, "name", Json::text(self.name.as_str()));
        put_some_entry(&mut e, "deprecation", some_deprecation_json(&self.deprecation));
        object(e)
    }
}

/// The name of a kind of credential.
pub open spec fn kind_name(k: CredentialKind) -> Seq<char> {
    match k {
        CredentialKind::Bearer => "bearer"@,
        CredentialKind::Cookie => "cookie"@,
        CredentialKind::OauthAccess => "oauth_access"@,
        CredentialKind::OauthRefresh => "oauth_refresh"@,
        CredentialKind::OidcId => "oidc_id"@,
        CredentialKind::AwsSts => "aws_sts"@,
        CredentialKind::Macaroon => "macaroon"@,
        CredentialKind::Other { .. } => "other"@,
    }
}

/// The wire form of a kind of credential.
pub open spec fn kind_json(k: CredentialKind) -> JsonView {
    let tagged = json::put(Seq::empty(), "kind"@, JsonView::Text(kind_name(k)));
    JsonView::Object(
        match k {
            CredentialKind::Other { name } => json::put(tagged, "name"@, JsonView::Text(name@)),
            _ => tagged,
        },
    )
}

impl CredentialKind {
    /// The wire form.
    pub fn to_json(&self) -> (r: Json)
        ensures
            r@ == kind_json(*self),
    {
        let name = match self {
            CredentialKind::Bearer => "bearer",
            CredentialKind::Cookie => "cookie",
            CredentialKind::OauthAccess => "oauth_access",
            CredentialKind::OauthRefresh => "oauth_refresh",
            CredentialKind::OidcId => "oidc_id",
            CredentialKind::AwsSts => "aws_sts",
            CredentialKind::Macaroon => "macaroon",
            CredentialKind::Other { .. } => "other",
        };
        let mut e = no_entries();
        put_entry(&mut e, "kind", Json::text(name));
        match self {
            CredentialKind::Other { name } => {
                put_entry(&mut e, "name", Json::text(name.as_str()));
            },
            _ => {},
        }
        object(e)
    }
}

/// The wire form of a site.
pub open spec fn site_json(s: AttachmentSite) -> JsonView {
    match s {
        AttachmentSite::Header { name } => JsonView::Object(
            json::put(
                json::put(Seq::empty(), "site"@, JsonView::Text("header"@)),
                "name"@,
                JsonView::Text(name@),
            ),
        ),
        AttachmentSite::Cookie { name } => JsonView::Object(
            json::put(
                json::put(Seq::empty(), "site"@, JsonView::Text("cookie"@)),
                "name"@,
                JsonView::Text(name@),
            ),
        ),
        AttachmentSite::FirstFrame { setup_method, param } => JsonView::Object(
            json::put(
                json::put(
                    json::put(Seq::empty(), "site"@, JsonView::Text("first_frame"@)),
                    "setup_method"@,
                    JsonView::Text(setup_method@),
                ),
                "param"@,
                JsonView::Text(param@),
            ),
        ),
        AttachmentSite::InRpcParam { param } => JsonView::Object(
            json::put(
                json::put(Seq::empty(), "site"@, JsonView::Text("in_rpc_param"@)),
                "param"@,
                JsonView::Text(param@),
            ),
        ),
    }
}

impl AttachmentSite {
    /// The wire form.
    pub fn to_json(&self) -> (r: Json)
        ensures
            r@ == site_json(*self),
    {
        let mut e = no_entries();
        match self {
            AttachmentSite::Header { name } => {
                put_entry(&mut e, "site", Json::text("header"));
                put_entry(&mut e, "name", Json::text(name.as_str()));
            },
            AttachmentSite::Cookie { name } => {
                put_entry(&mut e, "site", Json::text("cookie"));
                put_entry(&mut e, "name", Json::text(name.as_str()));
            },
            AttachmentSite::FirstFrame { setup_method, param } => {
                put_entry(&mut e, "site", Json::text("first_frame"));
                put_entry(&mut e, "setup_method", Json::text(setup_method.as_str()));
                put_entry(&mut e, "param", Json::text(param.as_str()));
            },
            AttachmentSite::InRpcParam { param } => {
                put_entry(&mut e, "site", Json::text("in_rpc_param"));
                put_entry(&mut e, "param", Json::text(param.as_str()));
            },
        }
        object(e)
    }
}

/// The wire form of an issuer.
pub open spec fn issuer_json(i: CredentialIssuer) -> JsonView {
    JsonView::Object(
        json::put(
            json::put(Seq::empty(), "origin"@, JsonView::Text(i.origin@)),
            "method"@,
            JsonView::Text(i.method@),
        ),
    )
}

/// The wire form of what is known of a credential.
pub open spec fn metadata_json(m: CredentialMetadata) -> JsonView {
    let e = json::put(Seq::empty(), "kind"@, kind_json(m.kind));
    let e = json::put(e, "attach_as"@, site_json(m.attach_as));
    let e = json::put(e, "scheme"@, text_or_null(m.scheme));
    let e = json::put(e, "scopes"@, json::text_items(text::texts(m.scopes@)));
    let e = json::put(e, "expires_at"@, text_or_null(m.expires_at));
    let e = json::put(e, "refresh_via"@, text_or_null(m.refresh_via));
    let e = json::put(e, "revoke_via"@, text_or_null(m.revoke_via));
    let e = json::put(e, "issuer"@, issuer_json(m.issuer));
    JsonView::Object(json::put(e, "sensitive"@, JsonView::Bool(m.sensitive)))
}

impl CredentialMetadata {
    /// The wire form.
    pub fn to_json(&self) -> (r: Json)
        ensures
            r@ == metadata_json(*self),
    {
        let mut issuer = no_entries();
        put_entry(&mut issuer, "origin", Json::text(self.issuer.origin.as_str()));
        put_entry(&mut issuer, "method", Json::text(self.issuer.method.as_str()));
        let mut e = no_entries();
        put_entry(&mut e, "kind", self.kind.to_json());
        put_entry(&mut e, "attach_as", self.attach_as.to_json());
        put_entry(&mut e, "scheme", text_or_null_json(&self.scheme));
        put_entry(&mut e, "scopes", Json::text_array(&self.scopes));
        put_entry(&mut e, "expires_at", text_or_null_json(&self.expires_at));
        put_entry(&mut e, "refresh_via", text_or_null_json(&self.refresh_via));
        put_entry(&mut e, "revoke_via", text_or_null_json(&self.revoke_via));
        put_entry(&mut e, "issuer", object(issuer));
        put_entry(&mut e, "sensitive", Json::Bool(self.sensitive));
        object(e)
    }
}

/// The wire form of a field that holds a credential.
pub open spec fn field_json(f: CredentialFieldDecl) -> JsonView {
    let e = json::put(Seq::empty(), "field_path"@, json::text_items(text::texts(f.field_path@)));
    let e = put_some(e, "variant_tag"@, some_text(f.variant_tag));
    JsonView::Object(json::put(e, "metadata"@, metadata_json(f.metadata)))
}

impl CredentialFieldDecl {
    /// The wire form.
    pub fn to_json(&self) -> (r: Json)
        ensures
            r@ == field_json(*self),
    {
        let mut e = no_entries();
        put_entry(&mut e, "field_path", Json::text_array(&self.field_path));
        put_some_entry(&mut e, "variant_tag", some_text_json(&self.variant_tag));
        put_entry(&mut e, "metadata", self.metadata.to_json());
        object(e)
    }
}

/// The wire form of a kind that may be left open.
pub open spec fn some_kind(k: Option<CredentialKind>) -> Option<JsonView> {
    match k {
        Some(kind) => Some(kind_json(kind)),
        None => None,
    }
}

/// The wire form of a site that may be left open.
pub open spec fn some_site(s: Option<AttachmentSite>) -> Option<JsonView> {
    match s {
        Some(site) => Some(site_json(site)),
        None => None,
    }
}

/// The wire form of scopes; none where there is no scope.
pub open spec fn some_scopes(s: Seq<Seq<char>>) -> Option<JsonView> {
    if s.len() == 0 {
        None
    } else {
        Some(json::text_items(s))
    }
}

/// The wire form of the credential that a method demands.
pub open spec fn required_json(c: RequiredCredential) -> JsonView {
    let e = put_some(Seq::empty(), "kind"@, some_kind(c.kind));
    let e = put_some(e, "scopes"@, some_scopes(text::texts(c.scopes@)));
    JsonView::Object(put_some(e, "site_hint"@, some_site(c.site_hint)))
}

impl RequiredCredential {
    /// The wire form.
    pub fn to_json(&self) -> (r: Json)
        ensures
            r@ == required_json(*self),
    {
        let mut e = no_entries();
        let kind = match &self.kind {
            Some(k) => Some(k.to_json()),
            None => None,
        };
        put_some_entry(&mut e, "kind", kind);
        let scopes = if self.scopes.len() == 0 {
            None
        } else {
            Some(Json::text_array(&self.scopes))
        };
        put_some_entry(&mut e, "scopes", scopes);
        let site_hint = match &self.site_hint {
            Some(s) => Some(s.to_json()),
            None => None,
        };
        put_some_entry(&mut e, "site_hint", site_hint);
        object(e)
    }
}

/// The name of a shape.
pub open spec fn shape_name(s: ReturnShape) -> Seq<char> {
    match s {
        ReturnShape::Bare => "bare"@,
        ReturnShape::Option => "option"@,
        ReturnShape::Result => "result"@,
        ReturnShape::Vec => "vec"@,
        ReturnShape::Stream => "stream"@,
        ReturnShape::ResultOption => "result_option"@,
    }
}

impl ReturnShape {
    /// The wire form.
    pub fn to_json(&self) -> (r: Json)
        ensures
            r@ == JsonView::Text(shape_name(*self)),
    {
        match self {
            ReturnShape::Bare => Json::text("bare"),
            ReturnShape::Option => Json::text("option"),
            ReturnShape::Result => Json::text("result"),
            ReturnShape::Vec => Json::text("vec"),
            ReturnShape::Stream => Json::text("stream"),
            ReturnShape::ResultOption => Json::text("result_option"),
        }
    }
}

/// The wire forms of parameters; none where there is no parameter.
pub open spec fn some_params(v: Seq<ParamSchema>) -> Option<JsonView> {
    if v.len() == 0 {
        None
    } else {
        Some(JsonView::Array(Seq::new(v.len(), |i: int| param_json(v[i]))))
    }
}

fn some_params_json(v: &Vec<ParamSchema>) -> (r: Option<Json>)
    ensures
        json::opt_json(r) == some_params(v@),
{
    if v.len() == 0 {
        return None;
    }
    let mut out: Vec<Json> = Vec::new();
    let mut i: usize = 0;
    while i < v.len()
        invariant
            i <= v.len(),
            out@.len() == i,
            forall|j: int| 0 <= j < i ==> (#[trigger] out@[j])@ == param_json(v@[j]),
        decreases v.len() - i,
    {
        out.push(v[i].to_json());
        i += 1;
    }
    proof {
        json::lemma_array_view(out);
        assert(json::items_view(out@) =~= Seq::new(v@.len(), |i: int| param_json(v@[i])));
    }
    Some(Json::Array(out))
}

/// The wire forms of fields that hold credentials; none where there is no such field.
pub open spec fn some_fields(v: Seq<CredentialFieldDecl>) -> Option<JsonView> {
    if v.len() == 0 {
        None
    } else {
        Some(JsonView::Array(Seq::new(v.len(), |i: int| field_json(v[i]))))
    }
}

fn some_fields_json(v: &Vec<CredentialFieldDecl>) -> (r: Option<Json>)
    ensures
        json::opt_json(r) == some_fields(v@),
{
    if v.len() == 0 {
        return None;
    }
    let mut out: Vec<Json> = Vec::new();
    let mut i: usize = 0;
    while i < v.len()
        invariant
            i <= v.len(),
            out@.len() == i,
            forall|j: int| 0 <= j < i ==> (#[trigger] out@[j])@ == field_json(v@[j]),
        decreases v.len() - i,
    {
        out.push(v[i].to_json());
        i += 1;
    }
    proof {
        json::lemma_array_view(out);
        assert(json::items_view(out@) =~= Seq::new(v@.len(), |i: int| field_json(v@[i])));
    }
    Some(Json::Array(out))
}

/// The wire form of a shape that may be missing.
pub open spec fn some_shape(s: Option<ReturnShape>) -> Option<JsonView> {
    match s {
        Some(shape) => Some(JsonView::Text(shape_name(shape))),
        None => None,
    }
}

/// The wire form of a demand that may be missing.
pub open spec fn some_required(c: Option<RequiredCredential>) -> Option<JsonView> {
    match c {
        Some(required) => Some(required_json(required)),
        None => None,
    }
}

/// What stands on the wire of a method in any case.
pub open spec fn plain_entries(m: MethodSchema) -> Entries {
    let e = json::put(Seq::empty(), "name"@, JsonView::Text(m.name@));
    let e = json::put(e, "description"@, JsonView::Text(m.description@));
    let e = json::put(e, "hash"@, JsonView::Text(m.hash@));
    let e = put_some(e, "params"@, json::opt_json(m.params));
    let e = put_some(e, "returns"@, json::opt_json(m.returns));
    let e = json::put(e, "streaming"@, JsonView::Bool(m.streaming));
    let e = json::put(e, "bidirectional"@, JsonView::Bool(m.bidirectional));
    let e = json::put(e, "http_method"@, JsonView::Text(schema::verb_name(m.http_method)));
    let e = put_some(e, "request_type"@, json::opt_json(m.request_type));
    let e = put_some(e, "response_type"@, json::opt_json(m.response_type));
    json::put(e, "role"@, role_json(m.role))
}

/// The wire form of a method.
pub open spec fn method_json(m: MethodSchema) -> JsonView {
    let e = plain_entries(m);
    let e = put_some(e, "deprecation"@, some_deprecation(m.deprecation));
    let e = put_some(e, "return_shape"@, some_shape(m.return_shape));
    let e = put_some(e, "params_meta"@, some_params(m.params_meta@));
    let e = put_some(e, "credentials"@, some_fields(m.credentials@));
    JsonView::Object(put_some(e, "requires_credential"@, some_required(m.requires_credential)))
}

impl MethodSchema {
    /// The wire form. Whether the method is open to everybody stays with the hub.
    pub fn to_json(&self) -> (r: Json)
        ensures
            r@ == method_json(*self),
    {
        let mut e = no_entries();
        put_entry(&mut e, "name", Json::text(self.name.as_str()));
        put_entry(&mut e, "description", Json::text(self.description.as_str()));
        put_entry(&mut e, "hash", Json::text(self.hash.as_str()));
        put_some_entry(&mut e, "params", copy_opt_json(&self.params));
        put_some_entry(&mut e, "returns", copy_opt_json(&self.returns));
        put_entry(&mut e, "streaming", Json::Bool(self.streaming));
        put_entry(&mut e, "bidirectional", Json::Bool(self.bidirectional));
        put_entry(&mut e, "http_method", Json::text(self.http_method.as_str()));
        put_some_entry(&mut e, "request_type", copy_opt_json(&self.request_type));
        put_some_entry(&mut e, "response_type", copy_opt_json(&self.response_type));
        put_entry(&mut e, "role", self.role.to_json());
        assert(json::entries_view(e@) == plain_entries(*self));
        put_some_entry(&mut e, "deprecation", some_deprecation_json(&self.deprecation));
        let shape = match &self.return_shape {
            Some(s) => Some(s.to_json()),
            None => None,
        };
        put_some_entry(&mut e, "return_shape", shape);
        put_some_entry(&mut e, "params_meta", some_params_json(&self.params_meta));
        put_some_entry(&mut e, "credentials", some_fields_json(&self.credentials));
        let required = match &self.requires_credential {
            Some(c) => Some(c.to_json()),
            None => None,
        };
        put_some_entry(&mut e, "requires_credential", required);
        object(e)
    }
}

/// The wire forms of methods.
pub open spec fn methods_json(v: Seq<MethodSchema>) -> JsonView {
    JsonView::Array(Seq::new(v.len(), |i: int| method_json(v[i])))
}

fn method_array(v: &Vec<MethodSchema>) -> (r: Json)
    ensures
        r@ == methods_json(v@),
{
    let mut out: Vec<Json> = Vec::new();
    let mut i: usize = 0;
    while i < v.len()
        invariant
            i <= v.len(),
            out@.len() == i,
            forall|j: int| 0 <= j < i ==> (#[trigger] out@[j])@ == method_json(v@[j]),
        decreases v.len() - i,
    {
        out.push(v[i].to_json());
        i += 1;
    }
    proof {
        json::lemma_array_view(out);
        assert(json::items_view(out@) =~= Seq::new(v@.len(), |i: int| method_json(v@[i])));
    }
    Json::Array(out)
}

/// The wire form of the summary of a child.
pub open spec fn child_json(c: ChildSummary) -> JsonView {
    let e = json::put(Seq::empty(), "namespace"@, JsonView::Text(c.namespace@));
    let e = json::put(e, "description"@, JsonView::Text(c.description@));
    JsonView::Object(json::put(e, "hash"@, JsonView::Text(c.hash@)))
}

impl ChildSummary {
    /// The wire form.
    pub fn to_json(&self) -> (r: Json)
        ensures
            r@ == child_json(*self),
    {
        let mut e = no_entries();
        put_entry(&mut e, "namespace", Json::text(self.namespace.as_str()));
        put_entry(&mut e, "description", Json::text(self.description.as_str()));
        put_entry(&mut e, "hash", Json::text(self.hash.as_str()));
        object(e)
    }
}

/// The wire forms of children that may be missing. An activation with no child shows an empty
/// list; one that is no hub shows none.
pub open spec fn some_children(v: Option<Vec<ChildSummary>>) -> Option<JsonView> {
    match v {
        Some(kids) => Some(JsonView::Array(Seq::new(kids@.len(), |i: int| child_json(kids@[i])))),
        None => None,
    }
}

fn some_children_json(v: &Option<Vec<ChildSummary>>) -> (r: Option<Json>)
    ensures
        json::opt_json(r) == some_children(*v),
{
    match v {
        None => None,
        Some(kids) => {
            let mut out: Vec<Json> = Vec::new();
            let mut i: usize = 0;
            while i < kids.len()
                invariant
                    i <= kids.len(),
                    out@.len() == i,
                    forall|j: int| 0 <= j < i ==> (#[trigger] out@[j])@ == child_json(kids@[j]),
                decreases kids.len() - i,
            {
                out.push(kids[i].to_json());
                i += 1;
            }
            proof {
                json::lemma_array_view(out);
                assert(json::items_view(out@) =~= Seq::new(kids@.len(), |i: int| child_json(kids@[i])));
            }
            Some(Json::Array(out))
        },
    }
}

/// The wire form of an activation.
pub open spec fn plugin_json(p: PluginSchema) -> JsonView {
    let e = json::put(Seq::empty(), "namespace"@, JsonView::Text(p.namespace@));
    let e = json::put(e, "version"@, JsonView::Text(p.version@));
    let e = json::put(e, "description"@, JsonView::Text(p.description@));
    let e = put_some(e, "long_description"@, some_text(p.long_description));
    let e = json::put(e, "self_hash"@, JsonView::Text(p.self_hash@));
    let e = put_some(e, "children_hash"@, some_text(p.children_hash));
    let e = json::put(e, "hash"@, JsonView::Text(p.hash@));
    let e = json::put(e, "methods"@, methods_json(p.methods@));
    let e = put_some(e, "children"@, some_children(p.children));
    let e = put_some(e, "request"@, json::opt_json(p.request));
    JsonView::Object(put_some(e, "deprecation"@, some_deprecation(p.deprecation)))
}

impl PluginSchema {
    /// The wire form.
    pub fn to_json(&self) -> (r: Json)
        ensures
            r@ == plugin_json(*self),
    {
        let mut e = no_entries();
        put_entry(&mut e, "namespace", Json::text(self.namespace.as_str()));
        put_entry(&mut e, "version", Json::text(self.version.as_str()));
        put_entry(&mut e, "description", Json::text(self.description.as_str()));
        put_some_entry(&mut e, "long_description", some_text_json(&self.long_description));
        put_entry(&mut e, "self_hash", Json::text(self.self_hash.as_str()));
        put_some_entry(&mut e, "children_hash", some_text_json(&self.children_hash));
        put_entry(&mut e, "hash", Json::text(self.hash.as_str()));
        put_entry(&mut e, "methods", method_array(&self.methods));
        put_some_entry(&mut e, "children", some_children_json(&self.children));
        put_some_entry(&mut e, "request", copy_opt_json(&self.request));
        put_some_entry(&mut e, "deprecation", some_deprecation_json(&self.deprecation));
        object(e)
    }
}

/// The wire form of an answered schema: that of the activation or of the method, without a
/// mark which of the two it is.
pub open spec fn result_json(s: SchemaResult) -> JsonView {
    match s {
        SchemaResult::Plugin(p) => plugin_json(p),
        SchemaResult::Method(m) => method_json(m),
    }
}

impl SchemaResult {
    /// The wire form.
    pub fn to_json(&self) -> (r: Json)
        ensures
            r@ == result_json(*self),
    {
        match self {
            SchemaResult::Plugin(p) => p.to_json(),
            SchemaResult::Method(m) => m.to_json(),
        }
    }
}

/// The wire form of the hash of a child.
pub open spec fn child_hash_json(c: ChildHashes) -> JsonView {
    JsonView::Object(
        json::put(
            json::put(Seq::empty(), "namespace"@, JsonView::Text(c.namespace@)),
            "hash"@,
            JsonView::Text(c.hash@),
        ),
    )
}

/// The wire forms of the hashes of children that may be missing.
pub open spec fn some_child_hashes(v: Option<Vec<ChildHashes>>) -> Option<JsonView> {
    match v {
        Some(kids) => Some(JsonView::Array(Seq::new(kids@.len(), |i: int| child_hash_json(kids@[i])))),
        None => None,
    }
}

/// The wire form of the hashes of an activation.
pub open spec fn hashes_json(h: PluginHashes) -> JsonView {
    let e = json::put(Seq::empty(), "namespace"@, JsonView::Text(h.namespace@));
    let e = json::put(e, "self_hash"@, JsonView::Text(h.self_hash@));
    let e = put_some(e, "children_hash"@, some_text(h.children_hash));
    let e = json::put(e, "hash"@, JsonView::Text(h.hash@));
    JsonView::Object(put_some(e, "children"@, some_child_hashes(h.children)))
}

impl ChildHashes {
    /// The wire form.
    pub fn to_json(&self) -> (r: Json)
        ensures
            r@ == child_hash_json(*self),
    {
        let mut e = no_entries();
        put_entry(&mut e, "namespace", Json::text(self.namespace.as_str()));
        put_entry(&mut e, "hash", Json::text(self.hash.as_str()));
        object(e)
    }
}

fn some_child_hashes_json(v: &Option<Vec<ChildHashes>>) -> (r: Option<Json>)
    ensures
        json::opt_json(r) == some_child_hashes(*v),
{
    match v {
        None => None,
        Some(kids) => {
            let mut out: Vec<Json> = Vec::new();
            let mut i: usize = 0;
            while i < kids.len()
                invariant
                    i <= kids.len(),
                    out@.len() == i,
                    forall|j: int| 0 <= j < i ==> (#[trigger] out@[j])@ == child_hash_json(kids@[j]),
                decreases kids.len() - i,
            {
                out.push(kids[i].to_json());
                i += 1;
            }
            proof {
                json::lemma_array_view(out);
                assert(json::items_view(out@) =~= Seq::new(kids@.len(), |i: int| child_hash_json(kids@[i])));
            }
            Some(Json::Array(out))
        },
    }
}

impl PluginHashes {
    /// The wire form.
    pub fn to_json(&self) -> (r: Json)
        ensures
            r@ == hashes_json(*self),
    {
        let mut e = no_entries();
        put_entry(&mut e, "namespace", Json::text(self.namespace.as_str()));
        put_entry(&mut e, "self_hash", Json::text(self.self_hash.as_str()));
        put_some_entry(&mut e, "children_hash", some_text_json(&self.children_hash));
        put_entry(&mut e, "hash", Json::text(self.hash.as_str()));
        put_some_entry(&mut e, "children", some_child_hashes_json(&self.children));
        object(e)
    }
}

pub broadcast proof fn lemma_read_put(e: Entries, k: Seq<char>, v: JsonView, other: Seq<char>)
    ensures
        #[trigger] json::entry_at(json::put(e, k, v), other) == (if other == k {
            Some(v)
        } else {
            json::entry_at(e, other)
        }),
{
    json::law_put_then_read(e, k, v, other);
}

pub broadcast proof fn lemma_read_put_some(e: Entries, k: Seq<char>, v: Option<JsonView>, other: Seq<char>)
    ensures
        #[trigger] json::entry_at(put_some(e, k, v), other) == (if other == k && v is Some {
            v
        } else {
            json::entry_at(e, other)
        }),
{
    match v {
        Some(j) => json::law_put_then_read(e, k, j, other),
        None => {},
    }
}

/// The keys under which a method shows what it says.
pub open spec fn method_keys() -> Seq<Seq<char>> {
    seq![
        "name"@,
        "description"@,
        "hash"@,
        "params"@,
        "returns"@,
        "streaming"@,
        "bidirectional"@,
        "http_method"@,
        "request_type"@,
        "response_type"@,
        "role"@,
        "deprecation"@,
        "return_shape"@,
        "params_meta"@,
        "credentials"@,
        "requires_credential"@,
    ]
}

proof fn lemma_method_keys_differ()
    ensures
        method_keys().no_duplicates(),
{
    reveal_strlit("name");
    reveal_strlit("description");
    reveal_strlit("hash");
    reveal_strlit("params");
    reveal_strlit("returns");
    reveal_strlit("streaming");
    reveal_strlit("bidirectional");
    reveal_strlit("http_method");
    reveal_strlit("request_type");
    reveal_strlit("response_type");
    reveal_strlit("role");
    reveal_strlit("deprecation");
    reveal_strlit("return_shape");
    reveal_strlit("params_meta");
    reveal_strlit("credentials");
    reveal_strlit("requires_credential");
    let k = method_keys();
    assert forall|i: int, j: int| 0 <= i < j < 16 implies k[i] != k[j] by {
        assert(k[i].len() != k[j].len() || k[i][0] != k[j][0] || k[i][2] != k[j][2]);
    }
}

/// Everything that a method says stands under its own key, and nothing where it says
/// nothing: what a method does not use does not show.
pub proof fn law_a_method_shows_what_it_says(m: MethodSchema)
    ensures
        json::json_get(method_json(m), "name"@) == Some(JsonView::Text(m.name@)),
        json::json_get(method_json(m), "description"@) == Some(JsonView::Text(m.description@)),
        json::json_get(method_json(m), "hash"@) == Some(JsonView::Text(m.hash@)),
        json::json_get(method_json(m), "params"@) == json::opt_json(m.params),
        json::json_get(method_json(m), "returns"@) == json::opt_json(m.returns),
        json::json_get(method_json(m), "streaming"@) == Some(JsonView::Bool(m.streaming)),
        json::json_get(method_json(m), "bidirectional"@) == Some(JsonView::Bool(m.bidirectional)),
        json::json_get(method_json(m), "http_method"@) == Some(JsonView::Text(schema::verb_name(m.http_method))),
        json::json_get(method_json(m), "request_type"@) == json::opt_json(m.request_type),
        json::json_get(method_json(m), "response_type"@) == json::opt_json(m.response_type),
        json::json_get(method_json(m), "role"@) == Some(role_json(m.role)),
        json::json_get(method_json(m), "deprecation"@) == some_deprecation(m.deprecation),
        json::json_get(method_json(m), "return_shape"@) == some_shape(m.return_shape),
        json::json_get(method_json(m), "params_meta"@) == some_params(m.params_meta@),
        json::json_get(method_json(m), "credentials"@) == some_fields(m.credentials@),
        json::json_get(method_json(m), "requires_credential"@) == some_required(m.requires_credential),
{
    broadcast use {lemma_read_put, lemma_read_put_some};

    lemma_method_keys_differ();
    let k = method_keys();
    assert forall|i: int, j: int| 0 <= i < 16 && 0 <= j < 16 && i != j implies #[trigger] k[i] != #[trigger] k[j] by {}
}

/// A method shows nothing under any other key.
pub proof fn law_a_method_shows_nothing_else(m: MethodSchema, other: Seq<char>)
    requires
        !method_keys().contains(other),
    ensures
        json::json_get(method_json(m), other) is None,
{
    broadcast use {lemma_read_put, lemma_read_put_some};

    let k = method_keys();
    assert forall|i: int| 0 <= i < 16 implies #[trigger] k[i] != other by {
        assert(k.contains(k[i]));
    }
    assert(k[0] != other && k[1] != other && k[2] != other && k[3] != other && k[4] != other && k[5] != other);
    assert(k[6] != other && k[7] != other && k[8] != other && k[9] != other && k[10] != other && k[11] != other);
    assert(k[12] != other && k[13] != other && k[14] != other && k[15] != other);
}

/// A hint where to attach a credential shows in the demand for it and nowhere else.
pub proof fn law_a_hint_shows_in_the_demand_only(m: MethodSchema, site: AttachmentSite, other: Seq<char>)
    requires
        other != "requires_credential"@,
    ensures
        json::json_get(method_json(schema::with_hint(m, site)), other) == json::json_get(method_json(m), other),
{
    broadcast use {lemma_read_put, lemma_read_put_some};

}

/// A demand shows its kind, its scopes and its hint as far as it has them.
pub proof fn law_a_demand_shows_what_it_says(c: RequiredCredential)
    ensures
        json::json_get(required_json(c), "kind"@) == some_kind(c.kind),
        json::json_get(required_json(c), "scopes"@) == some_scopes(text::texts(c.scopes@)),
        json::json_get(required_json(c), "site_hint"@) == some_site(c.site_hint),
{
    broadcast use {lemma_read_put, lemma_read_put_some};

    reveal_strlit("kind");
    reveal_strlit("scopes");
    reveal_strlit("site_hint");
    assert("kind"@.len() == 4 && "scopes"@.len() == 6 && "site_hint"@.len() == 9);
    let none = Seq::<(Seq<char>, JsonView)>::empty();
    assert(json::entry_at(none, "kind"@) is None);
    assert(json::entry_at(none, "scopes"@) is None);
    assert(json::entry_at(none, "site_hint"@) is None);
}

/// The entries with further ones put among them, one after the other.
pub open spec fn put_all(entries: Entries, more: Entries) -> Entries
    decreases more.len(),
{
    if more.len() == 0 {
        entries
    } else {
        json::put(put_all(entries, more.drop_last()), more.last().0, more.last().1)
    }
}

fn put_entries(entries: &mut Vec<(String, Json)>, more: &Vec<(String, Json)>)
    ensures
        json::entries_view(final(entries)@) == put_all(
            json::entries_view(old(entries)@),
            json::entries_view(more@),
        ),
{
    let ghost before = json::entries_view(entries@);
    let ghost all = json::entries_view(more@);
    assert(all.take(0) =~= Seq::empty());
    let mut i: usize = 0;
    while i < more.len()
        invariant
            i <= more.len(),
            all == json::entries_view(more@),
            json::entries_view(entries@) == put_all(before, all.take(i as int)),
        decreases more.len() - i,
    {
        proof {
            assert(all.take(i + 1).drop_last() =~= all.take(i as int));
            assert(all.take(i + 1).last() == all[i as int]);
        }
        put_entry(entries, more[i].0.as_str(), more[i].1.clone());
        i += 1;
    }
    assert(all.take(all.len() as int) =~= all);
}

/// The wire form of a list of texts that may be missing.
pub open spec fn some_texts(v: Option<Vec<String>>) -> Option<JsonView> {
    match v {
        Some(list) => Some(json::text_items(text::texts(list@))),
        None => None,
    }
}

fn some_texts_json(v: &Option<Vec<String>>) -> (r: Option<Json>)
    ensures
        json::opt_json(r) == some_texts(*v),
{
    match v {
        Some(list) => Some(Json::text_array(list)),
        None => None,
    }
}

/// The wire form of a list of values that may be missing.
pub open spec fn some_values(v: Option<Vec<Json>>) -> Option<JsonView> {
    match v {
        Some(list) => Some(JsonView::Array(json::items_view(list@))),
        None => None,
    }
}

fn some_values_json(v: &Option<Vec<Json>>) -> (r: Option<Json>)
    ensures
        json::opt_json(r) == some_values(*v),
{
    match v {
        None => None,
        Some(list) => {
            let mut out: Vec<Json> = Vec::new();
            let mut i: usize = 0;
            while i < list.len()
                invariant
                    i <= list.len(),
                    out@.len() == i,
                    forall|j: int| 0 <= j < i ==> (#[trigger] out@[j])@ == list@[j]@,
                decreases list.len() - i,
            {
                out.push(list[i].clone());
                i += 1;
            }
            proof {
                json::lemma_array_view(out);
                assert(json::items_view(out@) =~= json::items_view(list@));
            }
            Some(Json::Array(out))
        },
    }
}

/// The wire form of a property: what it says under its keys, then what it holds besides.
pub open spec fn property_json(p: SchemaProperty) -> JsonView
    decreases p,
{
    let e = put_some(Seq::empty(), "type"@, json::opt_json(p.property_type));
    let e = put_some(e, "description"@, some_text(p.description));
    let e = put_some(e, "format"@, some_text(p.format));
    let e = put_some(
        e,
        "items"@,
        match p.items {
            Some(items) => Some(property_json(*items)),
            None => None,
        },
    );
    let e = put_some(
        e,
        "properties"@,
        match p.properties {
            Some(list) => Some(JsonView::Object(put_all(Seq::empty(), named_properties(list@)))),
            None => None,
        },
    );
    let e = put_some(e, "required"@, some_texts(p.required));
    let e = put_some(e, "default"@, json::opt_json(p.default));
    let e = put_some(e, "enum"@, some_values(p.enum_values));
    let e = put_some(e, "$ref"@, some_text(p.reference));
    JsonView::Object(put_all(e, json::entries_view(p.additional@)))
}

/// What properties are on the wire, under their names.
pub open spec fn named_properties(list: Seq<(String, SchemaProperty)>) -> Entries
    decreases list,
{
    if list.len() == 0 {
        Seq::empty()
    } else {
        named_properties(list.drop_last()).push((list.last().0@, property_json(list.last().1)))
    }
}

impl SchemaProperty {
    /// The wire form.
    pub fn to_json(&self) -> (r: Json)
        ensures
            r@ == property_json(*self),
        decreases self,
    {
        let mut e = no_entries();
        put_some_entry(&mut e, "type", copy_opt_json(&self.property_type));
        put_some_entry(&mut e, "description", some_text_json(&self.description));
        put_some_entry(&mut e, "format", some_text_json(&self.format));
        let items = match &self.items {
            Some(items) => Some((**items).to_json()),
            None => None,
        };
        put_some_entry(&mut e, "items", items);
        let properties = match &self.properties {
            None => None,
            Some(list) => {
                let mut out = no_entries();
                let mut i: usize = 0;
                assert(list@.take(0) =~= Seq::empty());
                while i < list.len()
                    invariant
                        self.properties == Some(*list),
                        i <= list.len(),
                        json::entries_view(out@) == named_properties(list@.take(i as int)),
                    decreases list.len() - i,
                {
                    proof {
                        assert(decreases_to!(*self => self.properties));
                        assert(decreases_to!(self.properties => self.properties->0));
                        assert(decreases_to!(*list => list@));
                        assert(decreases_to!(list@ => list@[i as int]));
                        assert(decreases_to!(list@[i as int] => list@[i as int].1));
                        assert(list@.take(i + 1).drop_last() =~= list@.take(i as int));
                        assert(list@.take(i + 1).last() == list@[i as int]);
                    }
                    let ghost before = json::entries_view(out@);
                    let item = list[i].1.to_json();
                    out.push((list[i].0.clone(), item));
                    assert(json::entries_view(out@) =~= before.push(
                        (list@[i as int].0@, property_json(list@[i as int].1)),
                    ));
                    i += 1;
                }
                assert(list@.take(list@.len() as int) =~= list@);
                let mut named = no_entries();
                put_entries(&mut named, &out);
                Some(object(named))
            },
        };
        put_some_entry(&mut e, "properties", properties);
        put_some_entry(&mut e, "required", some_texts_json(&self.required));
        put_some_entry(&mut e, "default", copy_opt_json(&self.default));
        put_some_entry(&mut e, "enum", some_values_json(&self.enum_values));
        put_some_entry(&mut e, "$ref", some_text_json(&self.reference));
        put_entries(&mut e, &self.additional);
        object(e)
    }
}

/// The wire form of properties that may be missing.
pub open spec fn some_properties(v: Option<Vec<(String, SchemaProperty)>>) -> Option<JsonView> {
    match v {
        Some(list) => Some(JsonView::Object(put_all(Seq::empty(), named_properties(list@)))),
        None => None,
    }
}

fn some_properties_json(v: &Option<Vec<(String, SchemaProperty)>>) -> (r: Option<Json>)
    ensures
        json::opt_json(r) == some_properties(*v),
{
    match v {
        None => None,
        Some(list) => {
            let mut out = no_entries();
            let mut i: usize = 0;
            assert(list@.take(0) =~= Seq::empty());
            while i < list.len()
                invariant
                    i <= list.len(),
                    json::entries_view(out@) == named_properties(list@.take(i as int)),
                decreases list.len() - i,
            {
                proof {
                    assert(list@.take(i + 1).drop_last() =~= list@.take(i as int));
                    assert(list@.take(i + 1).last() == list@[i as int]);
                }
                let ghost before = json::entries_view(out@);
                out.push((list[i].0.clone(), list[i].1.to_json()));
                assert(json::entries_view(out@) =~= before.push(
                    (list@[i as int].0@, property_json(list@[i as int].1)),
                ));
                i += 1;
            }
            assert(list@.take(list@.len() as int) =~= list@);
            let mut named = no_entries();
            put_entries(&mut named, &out);
            Some(object(named))
        },
    }
}

/// The wire form of definitions that may be missing.
pub open spec fn some_defs(v: Option<Vec<(String, Json)>>) -> Option<JsonView> {
    match v {
        Some(list) => Some(JsonView::Object(put_all(Seq::empty(), json::entries_view(list@)))),
        None => None,
    }
}

fn some_defs_json(v: &Option<Vec<(String, Json)>>) -> (r: Option<Json>)
    ensures
        json::opt_json(r) == some_defs(*v),
{
    match v {
        None => None,
        Some(list) => {
            let mut named = no_entries();
            put_entries(&mut named, list);
            Some(object(named))
        },
    }
}

/// The wire form of a JSON schema: what it says under its keys, then what it holds besides.
pub open spec fn schema_json(s: Schema) -> JsonView
    decreases s,
{
    let e = put_some(Seq::empty(), "$schema"@, some_text(s.schema_version));
    let e = put_some(e, "title"@, some_text(s.title));
    let e = put_some(e, "description"@, some_text(s.description));
    let e = put_some(e, "type"@, json::opt_json(s.schema_type));
    let e = put_some(e, "properties"@, some_properties(s.properties));
    let e = put_some(e, "required"@, some_texts(s.required));
    let e = put_some(
        e,
        "oneOf"@,
        match s.one_of {
            Some(list) => Some(JsonView::Array(variant_schemas(list@))),
            None => None,
        },
    );
    let e = put_some(e, "$defs"@, some_defs(s.defs));
    JsonView::Object(put_all(e, json::entries_view(s.additional@)))
}

/// What the variants of a schema are on the wire, in order.
pub open spec fn variant_schemas(list: Seq<Schema>) -> Seq<JsonView>
    decreases list,
{
    if list.len() == 0 {
        Seq::empty()
    } else {
        variant_schemas(list.drop_last()).push(schema_json(list.last()))
    }
}

impl Schema {
    /// The wire form.
    pub fn to_json(&self) -> (r: Json)
        ensures
            r@ == schema_json(*self),
        decreases self,
    {
        let mut e = no_entries();
        put_some_entry(&mut e, "$schema", some_text_json(&self.schema_version));
        put_some_entry(&mut e, "title", some_text_json(&self.title));
        put_some_entry(&mut e, "description", some_text_json(&self.description));
        put_some_entry(&mut e, "type", copy_opt_json(&self.schema_type));
        put_some_entry(&mut e, "properties", some_properties_json(&self.properties));
        put_some_entry(&mut e, "required", some_texts_json(&self.required));
        let variants = match &self.one_of {
            None => None,
            Some(list) => {
                let mut out: Vec<Json> = Vec::new();
                let mut i: usize = 0;
                assert(list@.take(0) =~= Seq::empty());
                assert(json::items_view(out@) =~= Seq::empty());
                while i < list.len()
                    invariant
                        self.one_of == Some(*list),
                        i <= list.len(),
                        json::items_view(out@) == variant_schemas(list@.take(i as int)),
                    decreases list.len() - i,
                {
                    proof {
                        assert(decreases_to!(*self => self.one_of));
                        assert(decreases_to!(self.one_of => self.one_of->0));
                        assert(decreases_to!(*list => list@));
                        assert(decreases_to!(list@ => list@[i as int]));
                        assert(list@.take(i + 1).drop_last() =~= list@.take(i as int));
                        assert(list@.take(i + 1).last() == list@[i as int]);
                    }
                    let ghost before = json::items_view(out@);
                    out.push(list[i].to_json());
                    assert(json::items_view(out@) =~= before.push(schema_json(list@[i as int])));
                    i += 1;
                }
                assert(list@.take(list@.len() as int) =~= list@);
                proof {
                    json::lemma_array_view(out);
                }
                Some(Json::Array(out))
            },
        };
        put_some_entry(&mut e, "oneOf", variants);
        put_some_entry(&mut e, "$defs", some_defs_json(&self.defs));
        put_entries(&mut e, &self.additional);
        object(e)
    }
}

/// Hashes show what they are: the namespace, the hash of the activation's own, that of its
/// children where there are any, that of the whole, and the hash of each child under its name.
pub proof fn law_hashes_show_what_they_are(h: PluginHashes)
    ensures
        json::json_get(hashes_json(h), "namespace"@) == Some(JsonView::Text(h.namespace@)),
        json::json_get(hashes_json(h), "self_hash"@) == Some(JsonView::Text(h.self_hash@)),
        json::json_get(hashes_json(h), "hash"@) == Some(JsonView::Text(h.hash@)),
        h.children_hash is None ==> json::json_get(hashes_json(h), "children_hash"@) is None,
        h.children_hash is Some ==> json::json_get(hashes_json(h), "children_hash"@) == Some(
            JsonView::Text(h.children_hash->0@),
        ),
        h.children is None ==> json::json_get(hashes_json(h), "children"@) is None,
        h.children matches Some(kids) ==> {
            let shown = json::json_get(hashes_json(h), "children"@);
            &&& shown is Some && shown->0 is Array
            &&& shown->0->Array_0.len() == kids@.len()
            &&& forall|i: int|
                0 <= i < kids@.len() ==> {
                    &&& json::json_get(#[trigger] shown->0->Array_0[i], "namespace"@) == Some(
                        JsonView::Text(kids@[i].namespace@),
                    )
                    &&& json::json_get(shown->0->Array_0[i], "hash"@) == Some(JsonView::Text(kids@[i].hash@))
                }
        },
{
    broadcast use {lemma_read_put, lemma_read_put_some};

    reveal_strlit("namespace");
    reveal_strlit("self_hash");
    reveal_strlit("hash");
    reveal_strlit("children_hash");
    reveal_strlit("children");
    assert("namespace"@.len() == 9 && "self_hash"@.len() == 9 && "hash"@.len() == 4);
    assert("children_hash"@.len() == 13 && "children"@.len() == 8);
    assert("namespace"@[0] != "self_hash"@[0]);
    let none = Seq::<(Seq<char>, JsonView)>::empty();
    assert(json::entry_at(none, "children_hash"@) is None);
    assert(json::entry_at(none, "children"@) is None);
}

/// The summary of a child shows its namespace, its description and its hash.
pub proof fn law_a_child_shows_what_it_is(c: ChildSummary)
    ensures
        json::json_get(child_json(c), "namespace"@) == Some(JsonView::Text(c.namespace@)),
        json::json_get(child_json(c), "description"@) == Some(JsonView::Text(c.description@)),
        json::json_get(child_json(c), "hash"@) == Some(JsonView::Text(c.hash@)),
{
    broadcast use lemma_read_put;

    reveal_strlit("namespace");
    reveal_strlit("description");
    reveal_strlit("hash");
    assert("namespace"@.len() == 9 && "description"@.len() == 11 && "hash"@.len() == 4);
}

/// What is put after other entries is read in their place; under any other key they are read as
/// before.
pub proof fn law_what_is_added_is_read(entries: Entries, more: Entries, k: Seq<char>)
    ensures
        (forall|i: int| 0 <= i < more.len() ==> (#[trigger] more[i]).0 != k) ==> json::entry_at(
            put_all(entries, more),
            k,
        ) == json::entry_at(entries, k),
        forall|i: int|
            0 <= i < more.len() && (#[trigger] more[i]).0 == k && (forall|j: int|
                i < j < more.len() ==> (#[trigger] more[j]).0 != k) ==> json::entry_at(put_all(entries, more), k) == Some(
                more[i].1,
            ),
    decreases more.len(),
{
    if more.len() > 0 {
        let rest = more.drop_last();
        law_what_is_added_is_read(entries, rest, k);
        json::law_put_then_read(put_all(entries, rest), more.last().0, more.last().1, k);
        assert(more[more.len() - 1] == more.last());
        if forall|i: int| 0 <= i < more.len() ==> (#[trigger] more[i]).0 != k {
            assert forall|i: int| 0 <= i < rest.len() implies (#[trigger] rest[i]).0 != k by {
                assert(rest[i] == more[i]);
            }
        }
        assert forall|i: int|
            0 <= i < more.len() && (#[trigger] more[i]).0 == k && (forall|j: int|
                i < j < more.len() ==> (#[trigger] more[j]).0 != k) implies json::entry_at(put_all(entries, more), k)
            == Some(more[i].1) by {
            if i < more.len() - 1 {
                assert(rest[i] == more[i]);
                assert forall|j: int| i < j < rest.len() implies (#[trigger] rest[j]).0 != k by {
                    assert(rest[j] == more[j]);
                }
            }
        }
    }
}

/// Properties stand on the wire under their names, in order, each as what it says; the variants
/// of a schema likewise, in order.
pub proof fn law_each_part_of_a_schema_is_written(list: Seq<(String, SchemaProperty)>, variants: Seq<Schema>)
    ensures
        named_properties(list).len() == list.len(),
        forall|i: int|
            0 <= i < list.len() ==> #[trigger] named_properties(list)[i] == (list[i].0@, property_json(list[i].1)),
        variant_schemas(variants).len() == variants.len(),
        forall|i: int| 0 <= i < variants.len() ==> #[trigger] variant_schemas(variants)[i] == schema_json(variants[i]),
    decreases list.len() + variants.len(),
{
    if list.len() > 0 {
        let rest = list.drop_last();
        law_each_part_of_a_schema_is_written(rest, variants);
        assert forall|i: int| 0 <= i < list.len() implies #[trigger] named_properties(list)[i] == (
            list[i].0@,
            property_json(list[i].1),
        ) by {
            if i < rest.len() {
                assert(named_properties(rest)[i] == (rest[i].0@, property_json(rest[i].1)));
            }
        }
    } else if variants.len() > 0 {
        let rest = variants.drop_last();
        law_each_part_of_a_schema_is_written(list, rest);
        assert forall|i: int| 0 <= i < variants.len() implies #[trigger] variant_schemas(variants)[i] == schema_json(
            variants[i],
        ) by {
            if i < rest.len() {
                assert(variant_schemas(rest)[i] == schema_json(rest[i]));
            }
        }
    }
}

/// Whether a key is none of those that entries have.
pub open spec fn is_free(entries: Seq<(String, Json)>, k: Seq<char>) -> bool {
    forall|i: int| 0 <= i < entries.len() ==> (#[trigger] entries[i]).0@ != k
}

proof fn lemma_free(entries: Seq<(String, Json)>, before: Entries, k: Seq<char>)
    requires
        is_free(entries, k),
    ensures
        json::entry_at(put_all(before, json::entries_view(entries)), k) == json::entry_at(before, k),
{
    let more = json::entries_view(entries);
    assert forall|i: int| 0 <= i < more.len() implies (#[trigger] more[i]).0 != k by {
        assert(entries[i].0@ != k);
    }
    law_what_is_added_is_read(before, more, k);
}

/// A property shows what it says under its keys, and nothing where it says nothing, unless it
/// holds something else under that key besides.
pub proof fn law_a_property_shows_what_it_says(p: SchemaProperty)
    ensures
        is_free(p.additional@, "type"@) ==> json::json_get(property_json(p), "type"@) == json::opt_json(p.property_type),
        is_free(p.additional@, "description"@) ==> json::json_get(property_json(p), "description"@) == some_text(
            p.description,
        ),
        is_free(p.additional@, "format"@) ==> json::json_get(property_json(p), "format"@) == some_text(p.format),
        is_free(p.additional@, "items"@) ==> json::json_get(property_json(p), "items"@) == (match p.items {
            Some(items) => Some(property_json(*items)),
            None => None,
        }),
        is_free(p.additional@, "default"@) ==> json::json_get(property_json(p), "default"@) == json::opt_json(p.default),
        is_free(p.additional@, "$ref"@) ==> json::json_get(property_json(p), "$ref"@) == some_text(p.reference),
        is_free(p.additional@, "required"@) ==> json::json_get(property_json(p), "required"@) == (match p.required {
            Some(list) => Some(json::text_items(text::texts(list@))),
            None => None,
        }),
        is_free(p.additional@, "enum"@) ==> json::json_get(property_json(p), "enum"@) == (match p.enum_values {
            Some(list) => Some(JsonView::Array(json::items_view(list@))),
            None => None,
        }),
        is_free(p.additional@, "properties"@) ==> json::json_get(property_json(p), "properties"@) == (match p.properties {
            Some(list) => Some(JsonView::Object(put_all(Seq::empty(), named_properties(list@)))),
            None => None,
        }),
{
    broadcast use {lemma_read_put, lemma_read_put_some};

    reveal_strlit("type");
    reveal_strlit("description");
    reveal_strlit("format");
    reveal_strlit("items");
    reveal_strlit("properties");
    reveal_strlit("required");
    reveal_strlit("default");
    reveal_strlit("enum");
    reveal_strlit("$ref");
    assert("type"@.len() == 4 && "description"@.len() == 11 && "format"@.len() == 6 && "items"@.len() == 5);
    assert("properties"@.len() == 10 && "required"@.len() == 8 && "default"@.len() == 7);
    assert("enum"@.len() == 4 && "$ref"@.len() == 4);
    assert("type"@[0] == 't' && "enum"@[0] == 'e' && "$ref"@[0] == '$');
    let none = Seq::<(Seq<char>, JsonView)>::empty();
    assert(forall|k: Seq<char>| json::entry_at(none, k) is None);
    let e = put_some(none, "type"@, json::opt_json(p.property_type));
    let e = put_some(e, "description"@, some_text(p.description));
    let e = put_some(e, "format"@, some_text(p.format));
    let e = put_some(
        e,
        "items"@,
        match p.items {
            Some(items) => Some(property_json(*items)),
            None => None,
        },
    );
    let e = put_some(
        e,
        "properties"@,
        match p.properties {
            Some(list) => Some(JsonView::Object(put_all(Seq::empty(), named_properties(list@)))),
            None => None,
        },
    );
    let e = put_some(e, "required"@, some_texts(p.required));
    let e = put_some(e, "default"@, json::opt_json(p.default));
    let e = put_some(e, "enum"@, some_values(p.enum_values));
    let e = put_some(e, "$ref"@, some_text(p.reference));
    assert(property_json(p) == JsonView::Object(put_all(e, json::entries_view(p.additional@))));
    assert forall|k: Seq<char>| is_free(p.additional@, k) implies #[trigger] json::json_get(property_json(p), k)
        == json::entry_at(e, k) by {
        lemma_free(p.additional@, e, k);
    }
}

/// A schema shows what it says under its keys, and nothing where it says nothing, unless it holds
/// something else under that key besides.
pub proof fn law_a_schema_shows_what_it_says(s: Schema)
    ensures
        is_free(s.additional@, "$schema"@) ==> json::json_get(schema_json(s), "$schema"@) == some_text(s.schema_version),
        is_free(s.additional@, "title"@) ==> json::json_get(schema_json(s), "title"@) == some_text(s.title),
        is_free(s.additional@, "description"@) ==> json::json_get(schema_json(s), "description"@) == some_text(
            s.description,
        ),
        is_free(s.additional@, "type"@) ==> json::json_get(schema_json(s), "type"@) == json::opt_json(s.schema_type),
        is_free(s.additional@, "properties"@) ==> json::json_get(schema_json(s), "properties"@) == (match s.properties {
            Some(list) => Some(JsonView::Object(put_all(Seq::empty(), named_properties(list@)))),
            None => None,
        }),
        is_free(s.additional@, "required"@) ==> json::json_get(schema_json(s), "required"@) == (match s.required {
            Some(list) => Some(json::text_items(text::texts(list@))),
            None => None,
        }),
        is_free(s.additional@, "oneOf"@) ==> json::json_get(schema_json(s), "oneOf"@) == (match s.one_of {
            Some(list) => Some(JsonView::Array(variant_schemas(list@))),
            None => None,
        }),
        is_free(s.additional@, "$defs"@) ==> json::json_get(schema_json(s), "$defs"@) == (match s.defs {
            Some(list) => Some(JsonView::Object(put_all(Seq::empty(), json::entries_view(list@)))),
            None => None,
        }),
{
    broadcast use {lemma_read_put, lemma_read_put_some};

    reveal_strlit("$schema");
    reveal_strlit("title");
    reveal_strlit("description");
    reveal_strlit("type");
    reveal_strlit("properties");
    reveal_strlit("required");
    reveal_strlit("oneOf");
    reveal_strlit("$defs");
    assert("$schema"@.len() == 7 && "title"@.len() == 5 && "description"@.len() == 11 && "type"@.len() == 4);
    assert("properties"@.len() == 10 && "required"@.len() == 8 && "oneOf"@.len() == 5 && "$defs"@.len() == 5);
    assert("title"@[0] == 't' && "oneOf"@[0] == 'o' && "$defs"@[0] == '$');
    let none = Seq::<(Seq<char>, JsonView)>::empty();
    assert(forall|k: Seq<char>| json::entry_at(none, k) is None);
    let e = put_some(none, "$schema"@, some_text(s.schema_version));
    let e = put_some(e, "title"@, some_text(s.title));
    let e = put_some(e, "description"@, some_text(s.description));
    let e = put_some(e, "type"@, json::opt_json(s.schema_type));
    let e = put_some(e, "properties"@, some_properties(s.properties));
    let e = put_some(e, "required"@, some_texts(s.required));
    let e = put_some(
        e,
        "oneOf"@,
        match s.one_of {
            Some(list) => Some(JsonView::Array(variant_schemas(list@))),
            None => None,
        },
    );
    let e = put_some(e, "$defs"@, some_defs(s.defs));
    assert(schema_json(s) == JsonView::Object(put_all(e, json::entries_view(s.additional@))));
    assert forall|k: Seq<char>| is_free(s.additional@, k) implies #[trigger] json::json_get(schema_json(s), k)
        == json::entry_at(e, k) by {
        lemma_free(s.additional@, e, k);
    }
}

/// What a method may return, the kind of a credential and what is missing are written as their
/// names.
pub proof fn law_a_shape_is_written_as_its_name()
    ensures
        shape_name(ReturnShape::Bare) == "bare"@,
        shape_name(ReturnShape::Option) == "option"@,
        shape_name(ReturnShape::Result) == "result"@,
        shape_name(ReturnShape::Vec) == "vec"@,
        shape_name(ReturnShape::Stream) == "stream"@,
        shape_name(ReturnShape::ResultOption) == "result_option"@,
        kind_name(CredentialKind::Bearer) == "bearer"@,
        kind_name(CredentialKind::Cookie) == "cookie"@,
        kind_name(CredentialKind::OauthAccess) == "oauth_access"@,
        kind_name(CredentialKind::OauthRefresh) == "oauth_refresh"@,
        kind_name(CredentialKind::OidcId) == "oidc_id"@,
        kind_name(CredentialKind::AwsSts) == "aws_sts"@,
        kind_name(CredentialKind::Macaroon) == "macaroon"@,
        text_or_null(None) == JsonView::Null,
        forall|s: String| text_or_null(Some(s)) == JsonView::Text(#[trigger] s@),
        some_text(None) is None,
        forall|s: String| some_text(Some(s)) == Some(JsonView::Text(#[trigger] s@)),
{
}

} // verus!
