//! What a backend tells its clients of how they can sign in.

use crate::json;
use crate::json::{put_entry, Json, JsonView};
use crate::plexus::credential_envelope::AttachmentSite;
use crate::plexus::wire;
use crate::text;
use vstd::prelude::*;

verus! {

/// A way to sign in.
pub enum AuthMechanism {
    /// A token in a header.
    Bearer { header: String },
    /// A session cookie, and the methods that set, renew and clear it.
    Cookie { cookie: String, login: String, refresh: Option<String>, logout: Option<String> },
    /// An identity provider.
    Oidc { issuer: String, client_id: String, exchange: Option<String>, request_scopes: Vec<String> },
    /// No sign-in.
    Anonymous,
}

/// The ways to sign in that a backend has, and the one it prefers.
pub struct BackendAuthCapabilities {
    pub mechanisms: Vec<AuthMechanism>,
    pub default: Option<usize>,
}

/// Where a client attaches what a mechanism gave it.
pub open spec fn site_of(m: AuthMechanism) -> Option<SiteView> {
    match m {
        AuthMechanism::Bearer { header } => Some(SiteView::Header(header@)),
        AuthMechanism::Cookie { cookie, .. } => Some(SiteView::Cookie(cookie@)),
        AuthMechanism::Oidc { .. } => Some(SiteView::Header("authorization"@)),
        AuthMechanism::Anonymous => None,
    }
}

/// A header or a cookie.
pub enum SiteView {
    Header(Seq<char>),
    Cookie(Seq<char>),
}

/// Whether a site is a header or a cookie of a name.
pub open spec fn is_site(site: AttachmentSite, v: SiteView) -> bool {
    match (site, v) {
        (AttachmentSite::Header { name }, SiteView::Header(n)) => name@ == n,
        (AttachmentSite::Cookie { name }, SiteView::Cookie(n)) => name@ == n,
        _ => false,
    }
}

/// The site of the first mechanism that has one.
pub open spec fn first_site(ms: Seq<AuthMechanism>) -> Option<SiteView>
    decreases ms.len(),
{
    if ms.len() == 0 {
        None
    } else {
        match site_of(ms[0]) {
            Some(s) => Some(s),
            None => first_site(ms.skip(1)),
        }
    }
}

/// The site that capabilities imply: that of the preferred mechanism, else that of the first
/// mechanism that has one.
pub open spec fn implied_site(c: BackendAuthCapabilities) -> Option<SiteView> {
    match c.default {
        Some(i) => if i < c.mechanisms@.len() && site_of(c.mechanisms@[i as int]) is Some {
            site_of(c.mechanisms@[i as int])
        } else {
            first_site(c.mechanisms@)
        },
        None => first_site(c.mechanisms@),
    }
}

/// What is said of a fact that may be missing.
pub open spec fn put_opt(
    entries: Seq<(Seq<char>, JsonView)>,
    key: Seq<char>,
    value: Option<Seq<char>>,
) -> Seq<(Seq<char>, JsonView)> {
    match value {
        Some(v) => json::put(entries, key, JsonView::Text(v)),
        None => entries,
    }
}

/// The wire form of a mechanism.
pub open spec fn mechanism_json(m: AuthMechanism) -> JsonView {
    JsonView::Object(
        match m {
            AuthMechanism::Bearer { header } => json::put(
                json::put(Seq::empty(), "kind"@, JsonView::Text("bearer"@)),
                "header"@,
                JsonView::Text(header@),
            ),
            AuthMechanism::Cookie { cookie, login, refresh, logout } => put_opt(
                put_opt(
                    json::put(
                        json::put(
                            json::put(Seq::empty(), "kind"@, JsonView::Text("cookie"@)),
                            "cookie"@,
                            JsonView::Text(cookie@),
                        ),
                        "login"@,
                        JsonView::Text(login@),
                    ),
                    "refresh"@,
                    text::opt_text(refresh),
                ),
                "logout"@,
                text::opt_text(logout),
            ),
            AuthMechanism::Oidc { issuer, client_id, exchange, request_scopes } => json::put(
                put_opt(
                    json::put(
                        json::put(
                            json::put(Seq::empty(), "kind"@, JsonView::Text("oidc"@)),
                            "issuer"@,
                            JsonView::Text(issuer@),
                        ),
                        "client_id"@,
                        JsonView::Text(client_id@),
                    ),
                    "exchange"@,
                    text::opt_text(exchange),
                ),
                "request_scopes"@,
                json::text_items(text::texts(request_scopes@)),
            ),
            AuthMechanism::Anonymous => json::put(Seq::empty(), "kind"@, JsonView::Text("anonymous"@)),
        },
    )
}

/// The wire form of capabilities.
pub open spec fn capabilities_json(c: BackendAuthCapabilities) -> JsonView {
    let ms = JsonView::Array(Seq::new(c.mechanisms@.len(), |i: int| mechanism_json(c.mechanisms@[i])));
    let e = json::put(Seq::empty(), "mechanisms"@, ms);
    JsonView::Object(
        match c.default {
            Some(i) => json::put(e, "default"@, JsonView::Unsigned(i as u64)),
            None => e,
        },
    )
}

/// The wire form of capabilities that name no way to sign in.
pub open spec fn anonymous_json() -> JsonView {
    JsonView::Object(
        json::put(
            Seq::empty(),
            "mechanisms"@,
            JsonView::Array(
                seq![JsonView::Object(json::put(Seq::empty(), "kind"@, JsonView::Text("anonymous"@)))],
            ),
        ),
    )
}

/// What a backend says of itself: its name and how to sign in, nothing having been declared
/// meaning that nobody has to.
pub open spec fn info_json(namespace: Seq<char>, caps: Option<BackendAuthCapabilities>) -> JsonView {
    JsonView::Object(
        json::put(
            json::put(Seq::empty(), "backend"@, JsonView::Text(namespace)),
            "auth_capabilities"@,
            match caps {
                Some(c) => capabilities_json(c),
                None => anonymous_json(),
            },
        ),
    )
}

fn put_text(entries: &mut Vec<(String, Json)>, key: &str, value: &Option<String>)
    ensures
        json::entries_view(final(entries)@) == put_opt(
            json::entries_view(old(entries)@),
            key@,
            text::opt_text(*value),
        ),
{
    match value {
        Some(v) => put_entry(entries, key, Json::text(v.as_str())),
        None => {},
    }
}

impl AuthMechanism {
    /// Where a client attaches what the mechanism gave it.
    pub fn implied_attachment_site(&self) -> (r: Option<AttachmentSite>)
        ensures
            match r {
                Some(s) => site_of(*self) is Some && is_site(s, site_of(*self)->0),
                None => site_of(*self) is None,
            },
    {
        match self {
            AuthMechanism::Bearer { header } => Some(AttachmentSite::Header { name: header.clone() }),
            AuthMechanism::Cookie { cookie, .. } => Some(AttachmentSite::Cookie { name: cookie.clone() }),
            AuthMechanism::Oidc { .. } => Some(AttachmentSite::Header { name: "authorization".to_owned() }),
            AuthMechanism::Anonymous => None,
        }
    }

    /// The wire form.
    pub fn to_json(&self) -> (r: Json)
        ensures
            r@ == mechanism_json(*self),
    {
        let mut e: Vec<(String, Json)> = Vec::new();
        assert(json::entries_view(e@) =~= Seq::empty());
        match self {
            AuthMechanism::Bearer { header } => {
                put_entry(&mut e, "kind", Json::text("bearer"));
                put_entry(&mut e, "header", Json::text(header.as_str()));
            },
            AuthMechanism::Cookie { cookie, login, refresh, logout } => {
                put_entry(&mut e, "kind", Json::text("cookie"));
                put_entry(&mut e, "cookie", Json::text(cookie.as_str()));
                put_entry(&mut e, "login", Json::text(login.as_str()));
                put_text(&mut e, "refresh", refresh);
                put_text(&mut e, "logout", logout);
            },
            AuthMechanism::Oidc { issuer, client_id, exchange, request_scopes } => {
                put_entry(&mut e, "kind", Json::text("oidc"));
                put_entry(&mut e, "issuer", Json::text(issuer.as_str()));
                put_entry(&mut e, "client_id", Json::text(client_id.as_str()));
                put_text(&mut e, "exchange", exchange);
                put_entry(&mut e, "request_scopes", Json::text_array(request_scopes));
            },
            AuthMechanism::Anonymous => {
                put_entry(&mut e, "kind", Json::text("anonymous"));
            },
        }
        proof {
            json::lemma_object_view(e);
        }
        Json::Object(e)
    }
}

impl BackendAuthCapabilities {
    /// The capabilities of a backend that asks nobody to sign in.
    pub fn anonymous_default() -> (r: Self)
        ensures
            r.mechanisms@ == seq![AuthMechanism::Anonymous],
            r.default is None,
    {
        let mut mechanisms: Vec<AuthMechanism> = Vec::new();
        mechanisms.push(AuthMechanism::Anonymous);
        assert(mechanisms@ =~= seq![AuthMechanism::Anonymous]);
        BackendAuthCapabilities { mechanisms, default: None }
    }

    /// The site that the capabilities imply.
    pub fn implied_attachment_site(&self) -> (r: Option<AttachmentSite>)
        ensures
            match r {
                Some(s) => implied_site(*self) is Some && is_site(s, implied_site(*self)->0),
                None => implied_site(*self) is None,
            },
    {
        match self.default {
            Some(i) => if i < self.mechanisms.len() {
                match self.mechanisms[i].implied_attachment_site() {
                    Some(s) => {
                        return Some(s);
                    },
                    None => {},
                }
            },
            None => {},
        }
        let mut i: usize = 0;
        assert(self.mechanisms@.skip(0) =~= self.mechanisms@);
        while i < self.mechanisms.len()
            invariant
                i <= self.mechanisms.len(),
                implied_site(*self) == first_site(self.mechanisms@),
                first_site(self.mechanisms@) == first_site(self.mechanisms@.skip(i as int)),
            decreases self.mechanisms.len() - i,
        {
            assert(self.mechanisms@.skip(i as int)[0] == self.mechanisms@[i as int]);
            assert(self.mechanisms@.skip(i as int).skip(1) =~= self.mechanisms@.skip(i + 1));
            match self.mechanisms[i].implied_attachment_site() {
                Some(s) => {
                    return Some(s);
                },
                None => {},
            }
            i += 1;
        }
        None
    }

    /// The wire form.
    pub fn to_json(&self) -> (r: Json)
        ensures
            r@ == capabilities_json(*self),
    {
        let mut items: Vec<Json> = Vec::new();
        let mut i: usize = 0;
        while i < self.mechanisms.len()
            invariant
                i <= self.mechanisms.len(),
                items@.len() == i,
                forall|j: int| 0 <= j < i ==> (#[trigger] items@[j])@ == mechanism_json(self.mechanisms@[j]),
            decreases self.mechanisms.len() - i,
        {
            items.push(self.mechanisms[i].to_json());
            i += 1;
        }
        proof {
            json::lemma_array_view(items);
            assert(json::items_view(items@) =~= Seq::new(
                self.mechanisms@.len(),
                |i: int| mechanism_json(self.mechanisms@[i]),
            ));
        }
        let mut e: Vec<(String, Json)> = Vec::new();
        assert(json::entries_view(e@) =~= Seq::empty());
        put_entry(&mut e, "mechanisms", Json::Array(items));
        match self.default {
            Some(i) => put_entry(&mut e, "default", Json::Unsigned(i as u64)),
            None => {},
        }
        proof {
            json::lemma_object_view(e);
        }
        Json::Object(e)
    }
}

/// What a backend says of itself.
pub fn build_info_payload(namespace: &str, caps: Option<&BackendAuthCapabilities>) -> (r: Json)
    ensures
        r@ == info_json(
            namespace@,
            match caps {
                Some(c) => Some(*c),
                None => None,
            },
        ),
{
    let advertised = match caps {
        Some(c) => c.to_json(),
        None => {
            let c = BackendAuthCapabilities::anonymous_default();
            let j = c.to_json();
            assert(Seq::new(c.mechanisms@.len(), |i: int| mechanism_json(c.mechanisms@[i])) =~= seq![
                JsonView::Object(json::put(Seq::empty(), "kind"@, JsonView::Text("anonymous"@))),
            ]);
            j
        },
    };
    let mut e: Vec<(String, Json)> = Vec::new();
    assert(json::entries_view(e@) =~= Seq::empty());
    put_entry(&mut e, "backend", Json::text(namespace));
    put_entry(&mut e, "auth_capabilities", advertised);
    proof {
        json::lemma_object_view(e);
    }
    Json::Object(e)
}

/// The site that capabilities imply is that of the preferred mechanism, where it has one, else that
/// of the first that has one; there is none exactly where no mechanism has one. A token goes into
/// its header, a session into its cookie, what an identity provider gives into the header for
/// authorization, and nothing goes anywhere where nobody signs in.
pub proof fn law_a_site_is_that_of_a_mechanism(c: BackendAuthCapabilities, k: int)
    requires
        0 <= k < c.mechanisms@.len(),
    ensures
        c.default is Some && c.default->0 == k && !(c.mechanisms@[k] is Anonymous) ==> implied_site(c) is Some && is_site_of(
            c.mechanisms@[k],
            implied_site(c)->0,
        ),
        !(c.mechanisms@[k] is Anonymous) && (forall|j: int| 0 <= j < k ==> #[trigger] c.mechanisms@[j] is Anonymous) && (
        c.default is None || c.default->0 >= c.mechanisms@.len() || c.mechanisms@[c.default->0 as int] is Anonymous)
            ==> implied_site(c) is Some && is_site_of(c.mechanisms@[k], implied_site(c)->0),
        implied_site(c) is None <==> forall|j: int|
            0 <= j < c.mechanisms@.len() ==> #[trigger] c.mechanisms@[j] is Anonymous,
{
    lemma_no_site(c.mechanisms@);
    if !(c.mechanisms@[k] is Anonymous) && (forall|j: int| 0 <= j < k ==> #[trigger] c.mechanisms@[j] is Anonymous) {
        lemma_first_site(c.mechanisms@, k);
    }
    if c.default is Some && c.default->0 < c.mechanisms@.len() {
        let m = c.mechanisms@[c.default->0 as int];
        assert(m is Anonymous <==> site_of(m) is None);
    }
}

/// Whether a site is where what a mechanism gives is attached.
pub open spec fn is_site_of(m: AuthMechanism, site: SiteView) -> bool {
    match m {
        AuthMechanism::Bearer { header } => site == SiteView::Header(header@),
        AuthMechanism::Cookie { cookie, .. } => site == SiteView::Cookie(cookie@),
        AuthMechanism::Oidc { .. } => site == SiteView::Header("authorization"@),
        AuthMechanism::Anonymous => false,
    }
}

proof fn lemma_no_site(ms: Seq<AuthMechanism>)
    ensures
        first_site(ms) is None <==> forall|k: int| 0 <= k < ms.len() ==> #[trigger] ms[k] is Anonymous,
    decreases ms.len(),
{
    if ms.len() > 0 && site_of(ms[0]) is None {
        let rest = ms.skip(1);
        lemma_no_site(rest);
        if first_site(ms) is None {
            assert forall|k: int| 0 <= k < ms.len() implies #[trigger] ms[k] is Anonymous by {
                if k > 0 {
                    assert(rest[k - 1] == ms[k]);
                }
            }
        } else {
            let k = choose|k: int| 0 <= k < rest.len() && !(#[trigger] rest[k] is Anonymous);
            assert(ms[k + 1] == rest[k]);
        }
    } else if ms.len() > 0 {
        assert(!(ms[0] is Anonymous));
    }
}

proof fn lemma_first_site(ms: Seq<AuthMechanism>, k: int)
    requires
        0 <= k < ms.len(),
        !(ms[k] is Anonymous),
        forall|j: int| 0 <= j < k ==> #[trigger] ms[j] is Anonymous,
    ensures
        first_site(ms) is Some,
        is_site_of(ms[k], first_site(ms)->0),
    decreases ms.len(),
{
    if k > 0 {
        let rest = ms.skip(1);
        assert(ms[0] is Anonymous);
        assert(rest[k - 1] == ms[k]);
        assert forall|j: int| 0 <= j < k - 1 implies #[trigger] rest[j] is Anonymous by {
            assert(rest[j] == ms[j + 1]);
        }
        lemma_first_site(rest, k - 1);
    }
}

/// A mechanism shows what it says, each part under its own key, and what it does not say does not
/// show.
pub proof fn law_a_mechanism_shows_what_it_says(m: AuthMechanism)
    ensures
        ({
            let shown = mechanism_json(m);
            match m {
                AuthMechanism::Bearer { header } => {
                    &&& json::json_get(shown, "kind"@) == Some(JsonView::Text("bearer"@))
                    &&& json::json_get(shown, "header"@) == Some(JsonView::Text(header@))
                },
                AuthMechanism::Cookie { cookie, login, refresh, logout } => {
                    &&& json::json_get(shown, "kind"@) == Some(JsonView::Text("cookie"@))
                    &&& json::json_get(shown, "cookie"@) == Some(JsonView::Text(cookie@))
                    &&& json::json_get(shown, "login"@) == Some(JsonView::Text(login@))
                    &&& json::json_get(shown, "refresh"@) == (match refresh {
                        Some(t) => Some(JsonView::Text(t@)),
                        None => None,
                    })
                    &&& json::json_get(shown, "logout"@) == (match logout {
                        Some(t) => Some(JsonView::Text(t@)),
                        None => None,
                    })
                },
                AuthMechanism::Oidc { issuer, client_id, exchange, request_scopes } => {
                    &&& json::json_get(shown, "kind"@) == Some(JsonView::Text("oidc"@))
                    &&& json::json_get(shown, "issuer"@) == Some(JsonView::Text(issuer@))
                    &&& json::json_get(shown, "client_id"@) == Some(JsonView::Text(client_id@))
                    &&& json::json_get(shown, "exchange"@) == (match exchange {
                        Some(t) => Some(JsonView::Text(t@)),
                        None => None,
                    })
                    &&& json::json_get(shown, "request_scopes"@) == Some(
                        JsonView::Array(Seq::new(request_scopes@.len(), |i: int| JsonView::Text(request_scopes@[i]@))),
                    )
                },
                AuthMechanism::Anonymous => json::json_get(shown, "kind"@) == Some(JsonView::Text("anonymous"@)),
            }
        }),
{
    broadcast use wire::lemma_read_put;

    lemma_mechanism_keys();
    let none = Seq::<(Seq<char>, JsonView)>::empty();
    assert(json::entry_at(none, "refresh"@) is None);
    assert(json::entry_at(none, "logout"@) is None);
    assert(json::entry_at(none, "exchange"@) is None);
    if let AuthMechanism::Oidc { request_scopes, .. } = m {
        assert(json::text_items(text::texts(request_scopes@))->Array_0 =~= Seq::new(
            request_scopes@.len(),
            |i: int| JsonView::Text(request_scopes@[i]@),
        ));
    }
}

proof fn lemma_mechanism_keys()
    ensures
        "kind"@ != "header"@ && "kind"@ != "cookie"@ && "kind"@ != "login"@ && "kind"@ != "refresh"@ && "kind"@
            != "logout"@ && "kind"@ != "issuer"@ && "kind"@ != "client_id"@ && "kind"@ != "exchange"@ && "kind"@
            != "request_scopes"@,
        "cookie"@ != "login"@ && "cookie"@ != "refresh"@ && "cookie"@ != "logout"@,
        "login"@ != "refresh"@ && "login"@ != "logout"@,
        "refresh"@ != "logout"@,
        "issuer"@ != "client_id"@ && "issuer"@ != "exchange"@ && "issuer"@ != "request_scopes"@,
        "client_id"@ != "exchange"@ && "client_id"@ != "request_scopes"@,
        "exchange"@ != "request_scopes"@,
{
    reveal_strlit("kind");
    reveal_strlit("header");
    reveal_strlit("cookie");
    reveal_strlit("login");
    reveal_strlit("refresh");
    reveal_strlit("logout");
    reveal_strlit("issuer");
    reveal_strlit("client_id");
    reveal_strlit("exchange");
    reveal_strlit("request_scopes");
    assert("kind"@.len() == 4 && "header"@.len() == 6 && "cookie"@.len() == 6 && "login"@.len() == 5);
    assert("refresh"@.len() == 7 && "logout"@.len() == 6 && "issuer"@.len() == 6 && "client_id"@.len() == 9);
    assert("exchange"@.len() == 8 && "request_scopes"@.len() == 14);
    assert("cookie"@[0] == 'c' && "logout"@[0] == 'l');
}

/// A backend tells its name, and each of its ways to sign in, in order, with the one that it
/// prefers where it prefers one. One that has declared none tells that nobody has to sign in.
pub proof fn law_a_backend_tells_how_to_sign_in(namespace: Seq<char>, caps: Option<BackendAuthCapabilities>)
    ensures
        json::json_get(info_json(namespace, caps), "backend"@) == Some(JsonView::Text(namespace)),
        json::json_get(info_json(namespace, caps), "auth_capabilities"@) is Some,
        ({
            let told = json::json_get(info_json(namespace, caps), "auth_capabilities"@)->0;
            match caps {
                Some(c) => {
                    &&& json::json_get(told, "mechanisms"@) == Some(
                        JsonView::Array(Seq::new(c.mechanisms@.len(), |i: int| mechanism_json(c.mechanisms@[i]))),
                    )
                    &&& json::json_get(told, "default"@) == (match c.default {
                        Some(i) => Some(JsonView::Unsigned(i as u64)),
                        None => None,
                    })
                },
                None => {
                    &&& json::json_get(told, "mechanisms"@) == Some(
                        JsonView::Array(seq![mechanism_json(AuthMechanism::Anonymous)]),
                    )
                    &&& json::json_get(told, "default"@) is None
                },
            }
        }),
{
    broadcast use wire::lemma_read_put;

    reveal_strlit("backend");
    reveal_strlit("auth_capabilities");
    reveal_strlit("mechanisms");
    reveal_strlit("default");
    assert("backend"@.len() != "auth_capabilities"@.len());
    assert("mechanisms"@.len() != "default"@.len());
    assert(json::entry_at(Seq::empty(), "default"@) is None);
}

/// A site is a header where a header is meant and a cookie where a cookie is, of the same name;
/// no other site is either.
pub proof fn law_a_site_is_what_is_meant(site: AttachmentSite, v: SiteView)
    ensures
        is_site(site, v) <==> {
            ||| site is Header && v is Header && site->Header_name@ == v->Header_0
            ||| site is Cookie && v is Cookie && site->Cookie_name@ == v->Cookie_0
        },
{
}

} // verus!
