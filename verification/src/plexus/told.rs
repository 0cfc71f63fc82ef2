//! What a wire form tells of the schema that it was written from: everything but what stays
//! with the hub. Two schemas that are written alike say the same.

use crate::json;
use crate::json::JsonView;
use crate::plexus::credential_envelope::AttachmentSite;
use crate::plexus::schema;
use crate::plexus::schema::{
    ChildSummary, CredentialFieldDecl, CredentialKind, CredentialMetadata, DeprecationInfo, HttpMethod, MethodRole,
    MethodSchema, ParamSchema, PluginSchema, RequiredCredential, ReturnShape, SchemaResult,
};
use crate::plexus::wire;
use crate::text;
use vstd::prelude::*;

verus! {

/// Whether two roles say the same.
pub open spec fn same_role(a: MethodRole, b: MethodRole) -> bool {
    match a {
        MethodRole::Rpc => b is Rpc,
        MethodRole::StaticChild => b is StaticChild,
        MethodRole::DynamicChild { list_method, search_method } => {
            &&& b is DynamicChild
            &&& text::opt_text(list_method) == text::opt_text(b->list_method)
            &&& text::opt_text(search_method) == text::opt_text(b->search_method)
        },
    }
}

/// A role is told by its wire form.
pub proof fn law_a_role_is_told_by_its_wire_form(a: MethodRole, b: MethodRole)
    requires
        wire::role_json(a) == wire::role_json(b),
    ensures
        same_role(a, b),
{
    broadcast use {wire::lemma_read_put, wire::lemma_read_put_some};

    reveal_strlit("kind");
    reveal_strlit("list_method");
    reveal_strlit("search_method");
    reveal_strlit("rpc");
    reveal_strlit("static_child");
    reveal_strlit("dynamic_child");
    assert("kind"@.len() == 4 && "list_method"@.len() == 11 && "search_method"@.len() == 13);
    assert("rpc"@.len() == 3 && "static_child"@.len() == 12);
    let none = Seq::<(Seq<char>, JsonView)>::empty();
    assert(json::entry_at(none, "kind"@) is None);
    assert(json::entry_at(none, "list_method"@) is None);
    assert(json::entry_at(none, "search_method"@) is None);
    assert(json::json_get(wire::role_json(a), "kind"@) == json::json_get(wire::role_json(b), "kind"@));
    assert(json::json_get(wire::role_json(a), "list_method"@) == json::json_get(wire::role_json(b), "list_method"@));
    assert(json::json_get(wire::role_json(a), "search_method"@) == json::json_get(
        wire::role_json(b),
        "search_method"@,
    ));
}

/// Whether two deprecations say the same.
pub open spec fn same_deprecation(a: DeprecationInfo, b: DeprecationInfo) -> bool {
    &&& a.since@ == b.since@
    &&& a.removed_in@ == b.removed_in@
    &&& a.message@ == b.message@
}

/// Whether two deprecations that may be missing say the same.
pub open spec fn same_opt_deprecation(a: Option<DeprecationInfo>, b: Option<DeprecationInfo>) -> bool {
    match (a, b) {
        (Some(x), Some(y)) => same_deprecation(x, y),
        (None, None) => true,
        _ => false,
    }
}

/// A deprecation is told by its wire form.
pub proof fn law_a_deprecation_is_told_by_its_wire_form(a: DeprecationInfo, b: DeprecationInfo)
    requires
        wire::deprecation_json(a) == wire::deprecation_json(b),
    ensures
        same_deprecation(a, b),
{
    broadcast use wire::lemma_read_put;

    reveal_strlit("since");
    reveal_strlit("removed_in");
    reveal_strlit("message");
    assert("since"@.len() == 5 && "removed_in"@.len() == 10 && "message"@.len() == 7);
    let x = wire::deprecation_json(a);
    let y = wire::deprecation_json(b);
    assert(json::json_get(x, "since"@) == json::json_get(y, "since"@));
    assert(json::json_get(x, "removed_in"@) == json::json_get(y, "removed_in"@));
    assert(json::json_get(x, "message"@) == json::json_get(y, "message"@));
}

proof fn lemma_opt_deprecation(a: Option<DeprecationInfo>, b: Option<DeprecationInfo>)
    requires
        wire::some_deprecation(a) == wire::some_deprecation(b),
    ensures
        same_opt_deprecation(a, b),
{
    match (a, b) {
        (Some(x), Some(y)) => law_a_deprecation_is_told_by_its_wire_form(x, y),
        _ => {},
    }
}

/// Whether two parameters say the same.
pub open spec fn same_param(a: ParamSchema, b: ParamSchema) -> bool {
    a.name@ == b.name@ && same_opt_deprecation(a.deprecation, b.deprecation)
}

/// A parameter is told by its wire form.
pub proof fn law_a_parameter_is_told_by_its_wire_form(a: ParamSchema, b: ParamSchema)
    requires
        wire::param_json(a) == wire::param_json(b),
    ensures
        same_param(a, b),
{
    broadcast use {wire::lemma_read_put, wire::lemma_read_put_some};

    reveal_strlit("name");
    reveal_strlit("deprecation");
    assert("name"@.len() == 4 && "deprecation"@.len() == 11);
    assert(json::entry_at(Seq::<(Seq<char>, JsonView)>::empty(), "deprecation"@) is None);
    let x = wire::param_json(a);
    let y = wire::param_json(b);
    assert(json::json_get(x, "name"@) == json::json_get(y, "name"@));
    assert(json::json_get(x, "deprecation"@) == json::json_get(y, "deprecation"@));
    lemma_opt_deprecation(a.deprecation, b.deprecation);
}

/// Whether two kinds of credentials are the same.
pub open spec fn same_kind(a: CredentialKind, b: CredentialKind) -> bool {
    match a {
        CredentialKind::Bearer => b is Bearer,
        CredentialKind::Cookie => b is Cookie,
        CredentialKind::OauthAccess => b is OauthAccess,
        CredentialKind::OauthRefresh => b is OauthRefresh,
        CredentialKind::OidcId => b is OidcId,
        CredentialKind::AwsSts => b is AwsSts,
        CredentialKind::Macaroon => b is Macaroon,
        CredentialKind::Other { name } => b is Other && name@ == b->name@,
    }
}

proof fn lemma_kind_names_differ()
    ensures
        seq![
            "bearer"@,
            "cookie"@,
            "oauth_access"@,
            "oauth_refresh"@,
            "oidc_id"@,
            "aws_sts"@,
            "macaroon"@,
            "other"@,
        ].no_duplicates(),
{
    reveal_strlit("bearer");
    reveal_strlit("cookie");
    reveal_strlit("oauth_access");
    reveal_strlit("oauth_refresh");
    reveal_strlit("oidc_id");
    reveal_strlit("aws_sts");
    reveal_strlit("macaroon");
    reveal_strlit("other");
    let n = seq![
        "bearer"@,
        "cookie"@,
        "oauth_access"@,
        "oauth_refresh"@,
        "oidc_id"@,
        "aws_sts"@,
        "macaroon"@,
        "other"@,
    ];
    assert forall|i: int, j: int| 0 <= i < j < 8 implies n[i] != n[j] by {
        assert(n[i].len() != n[j].len() || n[i][0] != n[j][0]);
    }
}

/// A kind of credential is told by its wire form.
pub proof fn law_a_kind_is_told_by_its_wire_form(a: CredentialKind, b: CredentialKind)
    requires
        wire::kind_json(a) == wire::kind_json(b),
    ensures
        same_kind(a, b),
{
    broadcast use wire::lemma_read_put;

    reveal_strlit("kind");
    reveal_strlit("name");
    assert("kind"@[0] == 'k' && "name"@[0] == 'n');
    lemma_kind_names_differ();
    let n = seq![
        "bearer"@,
        "cookie"@,
        "oauth_access"@,
        "oauth_refresh"@,
        "oidc_id"@,
        "aws_sts"@,
        "macaroon"@,
        "other"@,
    ];
    assert forall|i: int, j: int| 0 <= i < 8 && 0 <= j < 8 && i != j implies #[trigger] n[i] != #[trigger] n[j] by {}
    let x = wire::kind_json(a);
    let y = wire::kind_json(b);
    assert(json::json_get(x, "kind"@) == json::json_get(y, "kind"@));
    assert(json::json_get(x, "name"@) == json::json_get(y, "name"@));
}

/// Whether two sites are the same.
pub open spec fn same_site(a: AttachmentSite, b: AttachmentSite) -> bool {
    match (a, b) {
        (AttachmentSite::Header { name: m }, AttachmentSite::Header { name: n }) => m@ == n@,
        (AttachmentSite::Cookie { name: m }, AttachmentSite::Cookie { name: n }) => m@ == n@,
        (
            AttachmentSite::FirstFrame { setup_method: m, param: p },
            AttachmentSite::FirstFrame { setup_method: n, param: q },
        ) => m@ == n@ && p@ == q@,
        (AttachmentSite::InRpcParam { param: p }, AttachmentSite::InRpcParam { param: q }) => p@ == q@,
        _ => false,
    }
}

/// A site is told by its wire form.
pub proof fn law_a_site_is_told_by_its_wire_form(a: AttachmentSite, b: AttachmentSite)
    requires
        wire::site_json(a) == wire::site_json(b),
    ensures
        same_site(a, b),
{
    broadcast use wire::lemma_read_put;

    reveal_strlit("site");
    reveal_strlit("name");
    reveal_strlit("setup_method");
    reveal_strlit("param");
    reveal_strlit("header");
    reveal_strlit("cookie");
    reveal_strlit("first_frame");
    reveal_strlit("in_rpc_param");
    assert("site"@[0] == 's' && "name"@[0] == 'n' && "site"@.len() == 4);
    assert("setup_method"@.len() == 12 && "param"@.len() == 5);
    assert("header"@[0] == 'h' && "cookie"@[0] == 'c' && "first_frame"@[0] == 'f' && "in_rpc_param"@[0] == 'i');
    let x = wire::site_json(a);
    let y = wire::site_json(b);
    assert(json::json_get(x, "site"@) == json::json_get(y, "site"@));
    assert(json::json_get(x, "name"@) == json::json_get(y, "name"@));
    assert(json::json_get(x, "setup_method"@) == json::json_get(y, "setup_method"@));
    assert(json::json_get(x, "param"@) == json::json_get(y, "param"@));
}

proof fn lemma_text_items(a: Seq<Seq<char>>, b: Seq<Seq<char>>)
    requires
        json::text_items(a) == json::text_items(b),
    ensures
        a == b,
{
    let x = json::text_items(a)->Array_0;
    let y = json::text_items(b)->Array_0;
    assert(a.len() == x.len() && b.len() == y.len());
    assert forall|i: int| 0 <= i < a.len() implies a[i] == b[i] by {
        assert(x[i] == JsonView::Text(a[i]) && y[i] == JsonView::Text(b[i]));
    }
    assert(a =~= b);
}

/// Whether the metadata of two credentials say the same.
pub open spec fn same_metadata(a: CredentialMetadata, b: CredentialMetadata) -> bool {
    &&& same_kind(a.kind, b.kind)
    &&& same_site(a.attach_as, b.attach_as)
    &&& text::opt_text(a.scheme) == text::opt_text(b.scheme)
    &&& text::texts(a.scopes@) == text::texts(b.scopes@)
    &&& text::opt_text(a.expires_at) == text::opt_text(b.expires_at)
    &&& text::opt_text(a.refresh_via) == text::opt_text(b.refresh_via)
    &&& text::opt_text(a.revoke_via) == text::opt_text(b.revoke_via)
    &&& a.issuer.origin@ == b.issuer.origin@
    &&& a.issuer.method@ == b.issuer.method@
    &&& a.sensitive == b.sensitive
}

spec fn metadata_keys() -> Seq<Seq<char>> {
    seq![
        "kind"@,
        "attach_as"@,
        "scheme"@,
        "scopes"@,
        "expires_at"@,
        "refresh_via"@,
        "revoke_via"@,
        "issuer"@,
        "sensitive"@,
    ]
}

proof fn lemma_metadata_keys_differ()
    ensures
        metadata_keys().no_duplicates(),
{
    reveal_strlit("kind");
    reveal_strlit("attach_as");
    reveal_strlit("scheme");
    reveal_strlit("scopes");
    reveal_strlit("expires_at");
    reveal_strlit("refresh_via");
    reveal_strlit("revoke_via");
    reveal_strlit("issuer");
    reveal_strlit("sensitive");
    let k = metadata_keys();
    assert forall|i: int, j: int| 0 <= i < j < 9 implies k[i] != k[j] by {
        assert(k[i].len() != k[j].len() || k[i][0] != k[j][0] || k[i][2] != k[j][2]);
    }
}

proof fn lemma_metadata_shows(m: CredentialMetadata)
    ensures
        json::json_get(wire::metadata_json(m), "kind"@) == Some(wire::kind_json(m.kind)),
        json::json_get(wire::metadata_json(m), "attach_as"@) == Some(wire::site_json(m.attach_as)),
        json::json_get(wire::metadata_json(m), "scheme"@) == Some(wire::text_or_null(m.scheme)),
        json::json_get(wire::metadata_json(m), "scopes"@) == Some(json::text_items(text::texts(m.scopes@))),
        json::json_get(wire::metadata_json(m), "expires_at"@) == Some(wire::text_or_null(m.expires_at)),
        json::json_get(wire::metadata_json(m), "refresh_via"@) == Some(wire::text_or_null(m.refresh_via)),
        json::json_get(wire::metadata_json(m), "revoke_via"@) == Some(wire::text_or_null(m.revoke_via)),
        json::json_get(wire::metadata_json(m), "issuer"@) == Some(wire::issuer_json(m.issuer)),
        json::json_get(wire::metadata_json(m), "sensitive"@) == Some(JsonView::Bool(m.sensitive)),
{
    broadcast use wire::lemma_read_put;

    lemma_metadata_keys_differ();
    let k = metadata_keys();
    assert forall|i: int, j: int| 0 <= i < 9 && 0 <= j < 9 && i != j implies #[trigger] k[i] != #[trigger] k[j] by {}
}

/// The metadata of a credential is told by its wire form.
pub proof fn law_metadata_is_told_by_its_wire_form(a: CredentialMetadata, b: CredentialMetadata)
    requires
        wire::metadata_json(a) == wire::metadata_json(b),
    ensures
        same_metadata(a, b),
{
    lemma_metadata_shows(a);
    lemma_metadata_shows(b);
    law_a_kind_is_told_by_its_wire_form(a.kind, b.kind);
    law_a_site_is_told_by_its_wire_form(a.attach_as, b.attach_as);
    lemma_text_items(text::texts(a.scopes@), text::texts(b.scopes@));
    let x = wire::issuer_json(a.issuer);
    let y = wire::issuer_json(b.issuer);
    assert(a.issuer.origin@ == b.issuer.origin@ && a.issuer.method@ == b.issuer.method@) by {
        broadcast use wire::lemma_read_put;

        reveal_strlit("origin");
        reveal_strlit("method");
        assert("origin"@[0] == 'o' && "method"@[0] == 'm');
        assert(json::json_get(x, "origin"@) == json::json_get(y, "origin"@));
        assert(json::json_get(x, "method"@) == json::json_get(y, "method"@));
    }
}

/// Whether two fields that hold credentials say the same.
pub open spec fn same_field(a: CredentialFieldDecl, b: CredentialFieldDecl) -> bool {
    &&& text::texts(a.field_path@) == text::texts(b.field_path@)
    &&& text::opt_text(a.variant_tag) == text::opt_text(b.variant_tag)
    &&& same_metadata(a.metadata, b.metadata)
}

/// A field that holds a credential is told by its wire form.
pub proof fn law_a_field_is_told_by_its_wire_form(a: CredentialFieldDecl, b: CredentialFieldDecl)
    requires
        wire::field_json(a) == wire::field_json(b),
    ensures
        same_field(a, b),
{
    broadcast use {wire::lemma_read_put, wire::lemma_read_put_some};

    reveal_strlit("field_path");
    reveal_strlit("variant_tag");
    reveal_strlit("metadata");
    assert("field_path"@.len() == 10 && "variant_tag"@.len() == 11 && "metadata"@.len() == 8);
    assert(json::entry_at(Seq::<(Seq<char>, JsonView)>::empty(), "variant_tag"@) is None);
    let x = wire::field_json(a);
    let y = wire::field_json(b);
    assert(json::json_get(x, "field_path"@) == json::json_get(y, "field_path"@));
    assert(json::json_get(x, "variant_tag"@) == json::json_get(y, "variant_tag"@));
    assert(json::json_get(x, "metadata"@) == json::json_get(y, "metadata"@));
    lemma_text_items(text::texts(a.field_path@), text::texts(b.field_path@));
    law_metadata_is_told_by_its_wire_form(a.metadata, b.metadata);
}

/// Whether two demands for a credential say the same.
pub open spec fn same_required(a: RequiredCredential, b: RequiredCredential) -> bool {
    &&& match (a.kind, b.kind) {
        (Some(x), Some(y)) => same_kind(x, y),
        (None, None) => true,
        _ => false,
    }
    &&& text::texts(a.scopes@) == text::texts(b.scopes@)
    &&& match (a.site_hint, b.site_hint) {
        (Some(x), Some(y)) => same_site(x, y),
        (None, None) => true,
        _ => false,
    }
}

/// A demand for a credential is told by its wire form.
pub proof fn law_a_demand_is_told_by_its_wire_form(a: RequiredCredential, b: RequiredCredential)
    requires
        wire::required_json(a) == wire::required_json(b),
    ensures
        same_required(a, b),
{
    wire::law_a_demand_shows_what_it_says(a);
    wire::law_a_demand_shows_what_it_says(b);
    match (a.kind, b.kind) {
        (Some(x), Some(y)) => law_a_kind_is_told_by_its_wire_form(x, y),
        _ => {},
    }
    match (a.site_hint, b.site_hint) {
        (Some(x), Some(y)) => law_a_site_is_told_by_its_wire_form(x, y),
        _ => {},
    }
    let s = text::texts(a.scopes@);
    let t = text::texts(b.scopes@);
    if s.len() == 0 {
        assert(s =~= t);
    } else {
        lemma_text_items(s, t);
    }
}

/// Whether two methods say the same to a client. Which of them is open to everybody is not
/// for clients.
pub open spec fn same_method(a: MethodSchema, b: MethodSchema) -> bool {
    &&& a.name@ == b.name@
    &&& a.description@ == b.description@
    &&& a.hash@ == b.hash@
    &&& json::opt_json(a.params) == json::opt_json(b.params)
    &&& json::opt_json(a.returns) == json::opt_json(b.returns)
    &&& a.streaming == b.streaming
    &&& a.bidirectional == b.bidirectional
    &&& a.http_method == b.http_method
    &&& json::opt_json(a.request_type) == json::opt_json(b.request_type)
    &&& json::opt_json(a.response_type) == json::opt_json(b.response_type)
    &&& same_role(a.role, b.role)
    &&& same_opt_deprecation(a.deprecation, b.deprecation)
    &&& a.return_shape == b.return_shape
    &&& a.params_meta@.len() == b.params_meta@.len()
    &&& forall|i: int| 0 <= i < a.params_meta@.len() ==> #[trigger] same_param(a.params_meta@[i], b.params_meta@[i])
    &&& a.credentials@.len() == b.credentials@.len()
    &&& forall|i: int| 0 <= i < a.credentials@.len() ==> #[trigger] same_field(a.credentials@[i], b.credentials@[i])
    &&& match (a.requires_credential, b.requires_credential) {
        (Some(x), Some(y)) => same_required(x, y),
        (None, None) => true,
        _ => false,
    }
}

proof fn lemma_shape(a: ReturnShape, b: ReturnShape)
    requires
        wire::shape_name(a) == wire::shape_name(b),
    ensures
        a == b,
{
    reveal_strlit("bare");
    reveal_strlit("option");
    reveal_strlit("result");
    reveal_strlit("vec");
    reveal_strlit("stream");
    reveal_strlit("result_option");
    let n = seq!["bare"@, "option"@, "result"@, "vec"@, "stream"@, "result_option"@];
    assert forall|i: int, j: int| 0 <= i < 6 && 0 <= j < 6 && i != j implies #[trigger] n[i] != #[trigger] n[j] by {
        assert(n[i].len() != n[j].len() || n[i][0] != n[j][0]);
    }
    assert(n[0] == "bare"@ && n[1] == "option"@ && n[2] == "result"@ && n[3] == "vec"@ && n[4] == "stream"@ && n[5]
        == "result_option"@);
}

proof fn lemma_verb(a: HttpMethod, b: HttpMethod)
    requires
        schema::verb_name(a) == schema::verb_name(b),
    ensures
        a == b,
{
    reveal_strlit("GET");
    reveal_strlit("POST");
    reveal_strlit("PUT");
    reveal_strlit("DELETE");
    reveal_strlit("PATCH");
    assert("GET"@[0] != "PUT"@[0]);
    assert("GET"@.len() == 3 && "PUT"@.len() == 3 && "POST"@.len() == 4 && "PATCH"@.len() == 5);
}

proof fn lemma_params(a: Seq<ParamSchema>, b: Seq<ParamSchema>)
    requires
        wire::some_params(a) == wire::some_params(b),
    ensures
        a.len() == b.len(),
        forall|i: int| 0 <= i < a.len() ==> #[trigger] same_param(a[i], b[i]),
{
    if a.len() > 0 && b.len() > 0 {
        let x = wire::some_params(a)->0->Array_0;
        let y = wire::some_params(b)->0->Array_0;
        assert(x.len() == a.len() && y.len() == b.len());
        assert forall|i: int| 0 <= i < a.len() implies #[trigger] same_param(a[i], b[i]) by {
            assert(x[i] == wire::param_json(a[i]) && y[i] == wire::param_json(b[i]));
            law_a_parameter_is_told_by_its_wire_form(a[i], b[i]);
        }
    }
}

proof fn lemma_fields(a: Seq<CredentialFieldDecl>, b: Seq<CredentialFieldDecl>)
    requires
        wire::some_fields(a) == wire::some_fields(b),
    ensures
        a.len() == b.len(),
        forall|i: int| 0 <= i < a.len() ==> #[trigger] same_field(a[i], b[i]),
{
    if a.len() > 0 && b.len() > 0 {
        let x = wire::some_fields(a)->0->Array_0;
        let y = wire::some_fields(b)->0->Array_0;
        assert(x.len() == a.len() && y.len() == b.len());
        assert forall|i: int| 0 <= i < a.len() implies #[trigger] same_field(a[i], b[i]) by {
            assert(x[i] == wire::field_json(a[i]) && y[i] == wire::field_json(b[i]));
            law_a_field_is_told_by_its_wire_form(a[i], b[i]);
        }
    }
}

/// A method is told by its wire form: whoever reads it can learn everything that the method
/// says to a client.
pub proof fn law_a_method_is_told_by_its_wire_form(a: MethodSchema, b: MethodSchema)
    requires
        wire::method_json(a) == wire::method_json(b),
    ensures
        same_method(a, b),
{
    wire::law_a_method_shows_what_it_says(a);
    wire::law_a_method_shows_what_it_says(b);
    lemma_verb(a.http_method, b.http_method);
    law_a_role_is_told_by_its_wire_form(a.role, b.role);
    lemma_opt_deprecation(a.deprecation, b.deprecation);
    match (a.return_shape, b.return_shape) {
        (Some(x), Some(y)) => lemma_shape(x, y),
        _ => {},
    }
    lemma_params(a.params_meta@, b.params_meta@);
    lemma_fields(a.credentials@, b.credentials@);
    match (a.requires_credential, b.requires_credential) {
        (Some(x), Some(y)) => law_a_demand_is_told_by_its_wire_form(x, y),
        _ => {},
    }
}

/// Whether two activations say the same to a client.
pub open spec fn same_plugin(a: PluginSchema, b: PluginSchema) -> bool {
    &&& a.namespace@ == b.namespace@
    &&& a.version@ == b.version@
    &&& a.description@ == b.description@
    &&& text::opt_text(a.long_description) == text::opt_text(b.long_description)
    &&& a.self_hash@ == b.self_hash@
    &&& text::opt_text(a.children_hash) == text::opt_text(b.children_hash)
    &&& a.hash@ == b.hash@
    &&& a.methods@.len() == b.methods@.len()
    &&& forall|i: int| 0 <= i < a.methods@.len() ==> #[trigger] same_method(a.methods@[i], b.methods@[i])
    &&& match (a.children, b.children) {
        (Some(x), Some(y)) => schema::child_views(x@) == schema::child_views(y@),
        (None, None) => true,
        _ => false,
    }
    &&& json::opt_json(a.request) == json::opt_json(b.request)
    &&& same_opt_deprecation(a.deprecation, b.deprecation)
}

spec fn plugin_keys() -> Seq<Seq<char>> {
    seq![
        "namespace"@,
        "version"@,
        "description"@,
        "long_description"@,
        "self_hash"@,
        "children_hash"@,
        "hash"@,
        "methods"@,
        "children"@,
        "request"@,
        "deprecation"@,
    ]
}

proof fn lemma_plugin_keys_differ()
    ensures
        plugin_keys().no_duplicates(),
{
    reveal_strlit("namespace");
    reveal_strlit("version");
    reveal_strlit("description");
    reveal_strlit("long_description");
    reveal_strlit("self_hash");
    reveal_strlit("children_hash");
    reveal_strlit("hash");
    reveal_strlit("methods");
    reveal_strlit("children");
    reveal_strlit("request");
    reveal_strlit("deprecation");
    let k = plugin_keys();
    assert forall|i: int, j: int| 0 <= i < j < 11 implies k[i] != k[j] by {
        assert(k[i].len() != k[j].len() || k[i][0] != k[j][0] || k[i][2] != k[j][2]);
    }
}

/// Everything that an activation says stands under its own key, and nothing where it says
/// nothing.
pub proof fn law_an_activation_shows_what_it_says(p: PluginSchema)
    ensures
        json::json_get(wire::plugin_json(p), "namespace"@) == Some(JsonView::Text(p.namespace@)),
        json::json_get(wire::plugin_json(p), "version"@) == Some(JsonView::Text(p.version@)),
        json::json_get(wire::plugin_json(p), "description"@) == Some(JsonView::Text(p.description@)),
        json::json_get(wire::plugin_json(p), "long_description"@) == wire::some_text(p.long_description),
        json::json_get(wire::plugin_json(p), "self_hash"@) == Some(JsonView::Text(p.self_hash@)),
        json::json_get(wire::plugin_json(p), "children_hash"@) == wire::some_text(p.children_hash),
        json::json_get(wire::plugin_json(p), "hash"@) == Some(JsonView::Text(p.hash@)),
        json::json_get(wire::plugin_json(p), "methods"@) == Some(wire::methods_json(p.methods@)),
        json::json_get(wire::plugin_json(p), "children"@) == wire::some_children(p.children),
        json::json_get(wire::plugin_json(p), "request"@) == json::opt_json(p.request),
        json::json_get(wire::plugin_json(p), "deprecation"@) == wire::some_deprecation(p.deprecation),
{
    broadcast use {wire::lemma_read_put, wire::lemma_read_put_some};

    lemma_plugin_keys_differ();
    let k = plugin_keys();
    assert forall|i: int, j: int| 0 <= i < 11 && 0 <= j < 11 && i != j implies #[trigger] k[i] != #[trigger] k[j] by {}
}

proof fn lemma_child(a: ChildSummary, b: ChildSummary)
    requires
        wire::child_json(a) == wire::child_json(b),
    ensures
        a@ == b@,
{
    broadcast use wire::lemma_read_put;

    reveal_strlit("namespace");
    reveal_strlit("description");
    reveal_strlit("hash");
    assert("namespace"@.len() == 9 && "description"@.len() == 11 && "hash"@.len() == 4);
    let x = wire::child_json(a);
    let y = wire::child_json(b);
    assert(json::json_get(x, "namespace"@) == json::json_get(y, "namespace"@));
    assert(json::json_get(x, "description"@) == json::json_get(y, "description"@));
    assert(json::json_get(x, "hash"@) == json::json_get(y, "hash"@));
}

/// An activation is told by its wire form.
pub proof fn law_an_activation_is_told_by_its_wire_form(a: PluginSchema, b: PluginSchema)
    requires
        wire::plugin_json(a) == wire::plugin_json(b),
    ensures
        same_plugin(a, b),
{
    law_an_activation_shows_what_it_says(a);
    law_an_activation_shows_what_it_says(b);
    lemma_opt_deprecation(a.deprecation, b.deprecation);
    let x = wire::methods_json(a.methods@)->Array_0;
    let y = wire::methods_json(b.methods@)->Array_0;
    assert(x.len() == a.methods@.len() && y.len() == b.methods@.len());
    assert forall|i: int| 0 <= i < a.methods@.len() implies #[trigger] same_method(a.methods@[i], b.methods@[i]) by {
        assert(x[i] == wire::method_json(a.methods@[i]) && y[i] == wire::method_json(b.methods@[i]));
        law_a_method_is_told_by_its_wire_form(a.methods@[i], b.methods@[i]);
    }
    match (a.children, b.children) {
        (Some(s), Some(t)) => {
            let x = wire::some_children(a.children)->0->Array_0;
            let y = wire::some_children(b.children)->0->Array_0;
            assert(x.len() == s@.len() && y.len() == t@.len());
            assert forall|i: int| 0 <= i < s@.len() implies schema::child_views(s@)[i] == schema::child_views(t@)[i] by {
                assert(x[i] == wire::child_json(s@[i]) && y[i] == wire::child_json(t@[i]));
                lemma_child(s@[i], t@[i]);
            }
            assert(schema::child_views(s@) =~= schema::child_views(t@));
        },
        _ => {},
    }
}

/// An answered schema is told by its wire form though nothing marks it: an activation shows a
/// namespace, a method shows none.
pub proof fn law_an_answered_schema_is_told_by_its_wire_form(a: SchemaResult, b: SchemaResult)
    requires
        wire::result_json(a) == wire::result_json(b),
    ensures
        match (a, b) {
            (SchemaResult::Plugin(x), SchemaResult::Plugin(y)) => same_plugin(x, y),
            (SchemaResult::Method(x), SchemaResult::Method(y)) => same_method(x, y),
            _ => false,
        },
{
    match (a, b) {
        (SchemaResult::Plugin(x), SchemaResult::Plugin(y)) => law_an_activation_is_told_by_its_wire_form(x, y),
        (SchemaResult::Method(x), SchemaResult::Method(y)) => law_a_method_is_told_by_its_wire_form(x, y),
        (SchemaResult::Plugin(x), SchemaResult::Method(y)) => lemma_a_method_is_no_activation(y, x),
        (SchemaResult::Method(x), SchemaResult::Plugin(y)) => lemma_a_method_is_no_activation(x, y),
    }
}

proof fn lemma_a_method_is_no_activation(m: MethodSchema, p: PluginSchema)
    ensures
        wire::method_json(m) != wire::plugin_json(p),
{
    law_an_activation_shows_what_it_says(p);
    reveal_strlit("name");
    reveal_strlit("description");
    reveal_strlit("hash");
    reveal_strlit("params");
    reveal_strlit("returns");
    reveal_strlit("streaming");
    reveal_strlit("bidirectional");
    reveal_strlit("http_method");
    reveal_strlit("request_type");
    reveal_strlit("response_type");
    reveal_strlit("role");
    reveal_strlit("deprecation");
    reveal_strlit("return_shape");
    reveal_strlit("params_meta");
    reveal_strlit("credentials");
    reveal_strlit("requires_credential");
    reveal_strlit("namespace");
    let k = wire::method_keys();
    assert forall|i: int| 0 <= i < 16 implies k[i] != "namespace"@ by {
        assert(k[i].len() != 9 || k[i][0] != 'n');
    }
    wire::law_a_method_shows_nothing_else(m, "namespace"@);
}

} // verus!
