//! Who is calling.

use crate::json;
use crate::json::{Json, JsonView};
use crate::text;
use crate::text::{holds_text, same_text};
use vstd::prelude::*;

verus! {

/// What the transport found out about the caller.
pub struct AuthContext {
    /// The caller's identifier; `"anonymous"` stands for nobody.
    pub user_id: String,
    /// The caller's session; empty for nobody.
    pub session_id: String,
    /// The roles that the caller holds.
    pub roles: Vec<String>,
    /// Further claims.
    pub metadata: Json,
}

/// Whether a user and a session name somebody.
pub open spec fn names_somebody(user_id: Seq<char>, session_id: Seq<char>) -> bool {
    user_id != "anonymous"@ && session_id.len() > 0
}

/// A claim that is a text.
pub open spec fn claim(metadata: JsonView, key: Seq<char>) -> Option<Seq<char>> {
    match json::json_get(metadata, key) {
        Some(JsonView::Text(t)) => Some(t),
        _ => None,
    }
}

impl AuthContext {
    /// Whether the context stands for an authenticated caller.
    pub open spec fn authenticated(&self) -> bool {
        names_somebody(self.user_id@, self.session_id@)
    }

    /// A context from its parts.
    pub fn new(user_id: String, session_id: String, roles: Vec<String>, metadata: Json) -> (r: Self)
        ensures
            r == (AuthContext { user_id, session_id, roles, metadata }),
    {
        AuthContext { user_id, session_id, roles, metadata }
    }

    /// The context of nobody.
    pub fn anonymous() -> (r: Self)
        ensures
            r.user_id@ == "anonymous"@,
            r.session_id@ == Seq::<char>::empty(),
            r.roles@.len() == 0,
            r.metadata == Json::Null,
            !r.authenticated(),
    {
        AuthContext {
            user_id: "anonymous".to_owned(),
            session_id: String::new(),
            roles: Vec::new(),
            metadata: Json::Null,
        }
    }

    /// Whether the context stands for an authenticated caller.
    pub fn is_authenticated(&self) -> (r: bool)
        ensures
            r == self.authenticated(),
    {
        !same_text(self.user_id.as_str(), "anonymous") && !self.session_id.as_str().is_empty()
    }

    /// A claim that is a text.
    pub fn get_metadata_string(&self, key: &str) -> (r: Option<String>)
        ensures
            text::opt_text(r) == claim(self.metadata@, key@),
    {
        match self.metadata.get(key) {
            Some(v) => match v.as_text() {
                Some(t) => Some(t.to_owned()),
                None => None,
            },
            None => None,
        }
    }

    /// The tenant that the caller claims: the claim of that name, else the realm.
    pub fn tenant(&self) -> (r: Option<String>)
        ensures
            text::opt_text(r) == (match claim(self.metadata@, "tenant_id"@) {
                Some(t) => Some(t),
                None => claim(self.metadata@, "realm"@),
            }),
    {
        match self.get_metadata_string("tenant_id") {
            Some(t) => Some(t),
            None => self.get_metadata_string("realm"),
        }
    }

    /// Whether the caller holds a role.
    pub fn has_role(&self, role: &str) -> (r: bool)
        ensures
            r == text::texts(self.roles@).contains(role@),
    {
        holds_text(&self.roles, role)
    }
}

/// A claim is the text that stands under its key; what is no text, or is not there, is no claim.
/// Somebody is named by a user other than the one that stands for nobody, in a session.
pub proof fn law_a_claim_is_a_text_under_its_key(
    entries: Seq<(Seq<char>, JsonView)>,
    key: Seq<char>,
    t: Seq<char>,
    other: JsonView,
    user_id: Seq<char>,
    session_id: Seq<char>,
)
    requires
        !(other is Text),
    ensures
        claim(JsonView::Object(json::put(entries, key, JsonView::Text(t))), key) == Some(t),
        claim(JsonView::Object(json::put(entries, key, other)), key) is None,
        json::entry_at(entries, key) is None ==> claim(JsonView::Object(entries), key) is None,
        names_somebody(user_id, session_id) <==> user_id != "anonymous"@ && session_id.len() > 0,
{
    json::law_put_then_read(entries, key, JsonView::Text(t), key);
    json::law_put_then_read(entries, key, other, key);
}

} // verus!
