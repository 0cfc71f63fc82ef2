//! The scope gate: whether a caller may reach a method, and what the audit learns of it.

use crate::auth::AuthContext;
use crate::outside;
use crate::outside::{
    method_path_accepts, registry_default, registry_demands, registry_grants, registry_is_public, scope_matches,
};
use crate::plexus::error;
use crate::plexus::error::{AuthzDenyReason, AuthzDenyView, PlexusError, PlexusErrorView};
use crate::text;
use crate::text::{copy_texts, join3, same_text};
use plexus_auth_core::ScopeRegistry;
use vstd::prelude::*;

verus! {

/// What a method's schema says to the scope gate.
pub struct MethodGateInfo {
    /// Whether the method is open to everybody.
    pub public: bool,
    /// The scopes that the method's credential demands.
    pub scopes: Vec<String>,
}

/// The verdict that an audit record carries.
#[derive(Debug, Clone, Copy, PartialEq, Eq, Structural)]
pub enum AuditDecision {
    Allow,
    DenyUnauthenticated,
    DenyMissingScope,
}

/// What an audit record says of one gate decision.
pub struct AuditFacts {
    pub method: String,
    /// The caller, when authenticated.
    pub originator: Option<String>,
    /// The caller's session, when authenticated.
    pub session_id: Option<String>,
    pub roles: Vec<String>,
    pub scope_required: Vec<String>,
    pub decision: AuditDecision,
}

/// What the scope gate decided, and what is to be audited of it.
pub struct GateVerdict {
    pub outcome: Result<(), PlexusError>,
    pub audit: Option<AuditFacts>,
}

/// What `AuditFacts` says.
pub struct AuditView {
    pub method: Seq<char>,
    pub originator: Option<Seq<char>>,
    pub session_id: Option<Seq<char>>,
    pub roles: Seq<Seq<char>>,
    pub scope_required: Seq<Seq<char>>,
    pub decision: AuditDecision,
}

impl View for AuditFacts {
    type V = AuditView;

    open spec fn view(&self) -> AuditView {
        AuditView {
            method: self.method@,
            originator: text::opt_text(self.originator),
            session_id: text::opt_text(self.session_id),
            roles: text::texts(self.roles@),
            scope_required: text::texts(self.scope_required@),
            decision: self.decision,
        }
    }
}

/// What the scope gate knows of a caller.
pub struct CallerView {
    pub user_id: Seq<char>,
    pub session_id: Seq<char>,
    pub roles: Seq<Seq<char>>,
}

/// What the scope gate knows of the caller behind a context.
pub open spec fn caller_view(auth: Option<&AuthContext>) -> Option<CallerView> {
    match auth {
        Some(a) => Some(
            CallerView { user_id: a.user_id@, session_id: a.session_id@, roles: text::texts(a.roles@) },
        ),
        None => None,
    }
}

/// Whether the caller is authenticated.
pub open spec fn is_signed_in(caller: Option<CallerView>) -> bool {
    match caller {
        Some(c) => crate::auth::names_somebody(c.user_id, c.session_id),
        None => false,
    }
}

/// The roles that the caller holds.
pub open spec fn roles_of(caller: Option<CallerView>) -> Seq<Seq<char>> {
    match caller {
        Some(c) => c.roles,
        None => Seq::empty(),
    }
}

/// What the schema says to the scope gate: public or not, and the scopes it demands.
pub open spec fn info_view(info: Option<&MethodGateInfo>) -> (bool, Seq<Seq<char>>) {
    match info {
        Some(i) => (i.public, text::texts(i.scopes@)),
        None => (false, Seq::empty()),
    }
}

/// How the scope gate rules on a call.
pub enum Ruling {
    /// No requirement was declared: the call passes, unaudited.
    Pass,
    /// The name is no method path and nothing undeclared passes.
    Malformed,
    /// The method is open to everybody.
    Public,
    /// Every required scope is held.
    Admit { required: Seq<Seq<char>> },
    /// Scopes are required and nobody is signed in.
    Unauthenticated { required: Seq<Seq<char>> },
    /// The first required scope that is not held.
    Missing { required: Seq<Seq<char>>, scope: Seq<char> },
}

/// The scopes that a call must show: what the deployment overlays, else what the schema
/// declares, else the method's own path where nothing undeclared passes.
pub open spec fn requirement(
    default_deny: bool,
    path: Seq<char>,
    demanded: Seq<Seq<char>>,
    declared: Seq<Seq<char>>,
) -> Option<Seq<Seq<char>>> {
    if demanded != seq![path] {
        Some(demanded)
    } else if declared.len() > 0 {
        Some(declared)
    } else if default_deny {
        Some(seq![path])
    } else {
        None
    }
}

/// The first of the required scopes that is not met.
pub open spec fn first_unmet(required: Seq<Seq<char>>, met: spec_fn(Seq<char>) -> bool) -> Option<Seq<char>>
    decreases required.len(),
{
    if required.len() == 0 {
        None
    } else if !met(required[0]) {
        Some(required[0])
    } else {
        first_unmet(required.skip(1), met)
    }
}

/// How the scope gate rules on a call to a well-formed path.
pub open spec fn rule(
    default_deny: bool,
    path: Seq<char>,
    public: bool,
    demanded: Seq<Seq<char>>,
    declared: Seq<Seq<char>>,
    signed_in: bool,
    met: spec_fn(Seq<char>) -> bool,
) -> Ruling {
    if public {
        Ruling::Public
    } else {
        match requirement(default_deny, path, demanded, declared) {
            None => Ruling::Pass,
            Some(required) => if !signed_in {
                Ruling::Unauthenticated { required }
            } else {
                match first_unmet(required, met) {
                    Some(scope) => Ruling::Missing { required, scope },
                    None => Ruling::Admit { required },
                }
            },
        }
    }
}

/// How the scope gate rules on a call to a name that is no method path.
pub open spec fn rule_malformed(default_deny: bool) -> Ruling {
    if default_deny {
        Ruling::Malformed
    } else {
        Ruling::Pass
    }
}

/// What a ruling answers the caller.
pub open spec fn answer(ruling: Ruling, path: Seq<char>) -> Result<(), PlexusErrorView> {
    match ruling {
        Ruling::Pass => Ok(()),
        Ruling::Public => Ok(()),
        Ruling::Admit { .. } => Ok(()),
        Ruling::Malformed => Err(
            PlexusErrorView::Forbidden { reason: AuthzDenyView::MissingScope { scope: path } },
        ),
        Ruling::Unauthenticated { .. } => Err(
            PlexusErrorView::Unauthenticated("method '"@ + path + "' requires authentication"@),
        ),
        Ruling::Missing { scope, .. } => Err(
            PlexusErrorView::Forbidden { reason: AuthzDenyView::MissingScope { scope } },
        ),
    }
}

/// What the audit learns of a decision.
pub open spec fn audit_of(
    path: Seq<char>,
    caller: Option<CallerView>,
    required: Seq<Seq<char>>,
    decision: AuditDecision,
) -> AuditView {
    AuditView {
        method: path,
        originator: if is_signed_in(caller) {
            Some(caller->0.user_id)
        } else {
            None
        },
        session_id: if is_signed_in(caller) {
            Some(caller->0.session_id)
        } else {
            None
        },
        roles: roles_of(caller),
        scope_required: required,
        decision,
    }
}

/// What the audit learns of a ruling: nothing where no decision was made.
pub open spec fn audit_entry(ruling: Ruling, path: Seq<char>, caller: Option<CallerView>) -> Option<AuditView> {
    match ruling {
        Ruling::Pass => None,
        Ruling::Malformed => None,
        Ruling::Public => Some(audit_of(path, caller, Seq::empty(), AuditDecision::Allow)),
        Ruling::Admit { required } => Some(audit_of(path, caller, required, AuditDecision::Allow)),
        Ruling::Unauthenticated { required } => Some(
            audit_of(path, caller, required, AuditDecision::DenyUnauthenticated),
        ),
        Ruling::Missing { required, .. } => Some(
            audit_of(path, caller, required, AuditDecision::DenyMissingScope),
        ),
    }
}

/// Whether a verdict carries out a ruling.
pub open spec fn carries_out(v: GateVerdict, ruling: Ruling, path: Seq<char>, caller: Option<CallerView>) -> bool {
    &&& error::outcome_view(v.outcome) == answer(ruling, path)
    &&& match v.audit {
        Some(facts) => audit_entry(ruling, path, caller) == Some(facts@),
        None => audit_entry(ruling, path, caller) is None,
    }
}

/// Whether one of the held scopes covers the required one.
pub open spec fn covered(held: Seq<Seq<char>>, scope: Seq<char>) -> bool {
    exists|i: int| 0 <= i < held.len() && outside::scope_covers(#[trigger] held[i], scope)
}

/// Whether a scope that one of the roles grants covers the required one.
pub open spec fn role_covers(
    by_role: Map<Seq<char>, Set<Seq<char>>>,
    roles: Seq<Seq<char>>,
    scope: Seq<char>,
) -> bool {
    exists|h: Seq<char>| #[trigger] outside::grants(by_role, roles, h) && outside::scope_covers(h, scope)
}

/// The audit record of a decision.
pub fn emit(path: &str, auth: Option<&AuthContext>, required: &Vec<String>, decision: AuditDecision) -> (r: AuditFacts)
    ensures
        r@ == audit_of(path@, caller_view(auth), text::texts(required@), decision),
{
    let (originator, session_id) = match auth {
        Some(a) => if a.is_authenticated() {
            (Some(a.user_id.clone()), Some(a.session_id.clone()))
        } else {
            (None, None)
        },
        None => (None, None),
    };
    let roles = match auth {
        Some(a) => copy_texts(&a.roles),
        None => Vec::new(),
    };
    assert(text::texts(roles@) =~= roles_of(caller_view(auth)));
    AuditFacts {
        method: path.to_owned(),
        originator,
        session_id,
        roles,
        scope_required: copy_texts(required),
        decision,
    }
}

/// Whether one of the held scopes covers the required one.
fn is_covered(held: &Vec<String>, scope: &str) -> (r: bool)
    ensures
        r == covered(text::texts(held@), scope@),
{
    let mut i: usize = 0;
    while i < held.len()
        invariant
            i <= held.len(),
            forall|j: int| 0 <= j < i ==> !outside::scope_covers(held@[j]@, scope@),
        decreases held.len() - i,
    {
        if scope_matches(held[i].as_str(), scope) {
            assert(outside::scope_covers(text::texts(held@)[i as int], scope@));
            return true;
        }
        i += 1;
    }
    false
}

/// The first of the required scopes that no held scope covers.
fn find_unmet(required: &Vec<String>, held: &Vec<String>) -> (r: Option<String>)
    ensures
        text::opt_text(r) == first_unmet(
            text::texts(required@),
            |s: Seq<char>| covered(text::texts(held@), s),
        ),
{
    let ghost met = |s: Seq<char>| covered(text::texts(held@), s);
    let ghost all = text::texts(required@);
    assert(all.skip(0) =~= all);
    let mut i: usize = 0;
    while i < required.len()
        invariant
            all == text::texts(required@),
            met == (|s: Seq<char>| covered(text::texts(held@), s)),
            i <= required.len(),
            first_unmet(all, met) == first_unmet(all.skip(i as int), met),
        decreases required.len() - i,
    {
        assert(all.skip(i as int)[0] == all[i as int]);
        if !is_covered(held, required[i].as_str()) {
            return Some(required[i].clone());
        }
        assert(all.skip(i as int).skip(1) =~= all.skip(i + 1));
        i += 1;
    }
    None
}

/// The verdict on a name that is no method path.
pub fn decide_malformed(default_deny: bool, full_path: &str) -> (v: GateVerdict)
    ensures
        error::outcome_view(v.outcome) == answer(rule_malformed(default_deny), full_path@),
        v.audit is None,
{
    if default_deny {
        GateVerdict {
            outcome: Err(
                PlexusError::Forbidden { reason: AuthzDenyReason::MissingScope { scope: full_path.to_owned() } },
            ),
            audit: None,
        }
    } else {
        GateVerdict { outcome: Ok(()), audit: None }
    }
}

/// The verdict on a call to a method path, from what the registry says of the path and of
/// the caller's roles.
pub fn decide(
    default_deny: bool,
    full_path: &str,
    registry_public: bool,
    demanded: &Vec<String>,
    held: &Vec<String>,
    schema_info: Option<&MethodGateInfo>,
    auth: Option<&AuthContext>,
) -> (v: GateVerdict)
    ensures
        carries_out(
            v,
            rule(
                default_deny,
                full_path@,
                registry_public || info_view(schema_info).0,
                text::texts(demanded@),
                info_view(schema_info).1,
                is_signed_in(caller_view(auth)),
                |s: Seq<char>| covered(text::texts(held@), s),
            ),
            full_path@,
            caller_view(auth),
        ),
{
    let schema_public = match schema_info {
        Some(i) => i.public,
        None => false,
    };
    if registry_public || schema_public {
        let nothing: Vec<String> = Vec::new();
        assert(text::texts(nothing@) =~= Seq::<Seq<char>>::empty());
        return GateVerdict { outcome: Ok(()), audit: Some(emit(full_path, auth, &nothing, AuditDecision::Allow)) };
    }
    let implicit_only = demanded.len() == 1 && same_text(demanded[0].as_str(), full_path);
    proof {
        let d = text::texts(demanded@);
        if implicit_only {
            assert(d =~= seq![full_path@]);
        } else if d == seq![full_path@] {
            assert(d.len() == 1 && d[0] == full_path@);
        }
    }
    let required: Vec<String> = if !implicit_only {
        copy_texts(demanded)
    } else {
        let declared = match schema_info {
            Some(i) => copy_texts(&i.scopes),
            None => Vec::new(),
        };
        assert(text::texts(declared@) =~= info_view(schema_info).1);
        if declared.len() > 0 {
            declared
        } else if default_deny {
            let mut own: Vec<String> = Vec::new();
            own.push(full_path.to_owned());
            assert(text::texts(own@) =~= seq![full_path@]);
            own
        } else {
            return GateVerdict { outcome: Ok(()), audit: None };
        }
    };
    assert(requirement(default_deny, full_path@, text::texts(demanded@), info_view(schema_info).1) == Some(
        text::texts(required@),
    ));
    let authenticated = match auth {
        Some(a) => a.is_authenticated(),
        None => false,
    };
    if !authenticated {
        let audit = emit(full_path, auth, &required, AuditDecision::DenyUnauthenticated);
        return GateVerdict {
            outcome: Err(
                PlexusError::Unauthenticated(join3("method '", full_path, "' requires authentication")),
            ),
            audit: Some(audit),
        };
    }
    match find_unmet(&required, held) {
        Some(scope) => GateVerdict {
            outcome: Err(PlexusError::Forbidden { reason: AuthzDenyReason::MissingScope { scope } }),
            audit: Some(emit(full_path, auth, &required, AuditDecision::DenyMissingScope)),
        },
        None => GateVerdict {
            outcome: Ok(()),
            audit: Some(emit(full_path, auth, &required, AuditDecision::Allow)),
        },
    }
}

/// How a registry rules on a call.
pub open spec fn registry_rule(
    registry: ScopeRegistry,
    default_deny: bool,
    path: Seq<char>,
    info: (bool, Seq<Seq<char>>),
    caller: Option<CallerView>,
) -> Ruling {
    if !outside::is_method_path(path) {
        rule_malformed(default_deny)
    } else {
        rule(
            default_deny,
            path,
            outside::public_methods(registry).contains(path) || info.0,
            outside::demanded_scopes(outside::scope_overlays(registry), path),
            info.1,
            is_signed_in(caller),
            |s: Seq<char>| role_covers(outside::role_grants(registry), roles_of(caller), s),
        )
    }
}

/// The registry that declares nothing.
pub fn empty_registry() -> (r: ScopeRegistry)
    ensures
        outside::public_methods(r) == Set::<Seq<char>>::empty(),
        outside::scope_overlays(r).dom() == Set::<Seq<char>>::empty(),
        outside::role_grants(r).dom() == Set::<Seq<char>>::empty(),
{
    registry_default()
}

/// The scope gate's verdict on a call.
pub fn enforce(
    registry: &ScopeRegistry,
    default_deny: bool,
    full_path: &str,
    schema_info: Option<&MethodGateInfo>,
    auth: Option<&AuthContext>,
) -> (v: GateVerdict)
    ensures
        carries_out(
            v,
            registry_rule(*registry, default_deny, full_path@, info_view(schema_info), caller_view(auth)),
            full_path@,
            caller_view(auth),
        ),
{
    if !method_path_accepts(full_path) {
        return decide_malformed(default_deny, full_path);
    }
    let public = registry_is_public(registry, full_path);
    let demanded = registry_demands(registry, full_path);
    let roles: Vec<String> = match auth {
        Some(a) => copy_texts(&a.roles),
        None => Vec::new(),
    };
    let held = registry_grants(registry, &roles);
    proof {
        let caller = caller_view(auth);
        assert(text::texts(roles@) =~= roles_of(caller));
        let by_role = outside::role_grants(*registry);
        let f = |s: Seq<char>| covered(text::texts(held@), s);
        let g = |s: Seq<char>| role_covers(by_role, roles_of(caller), s);
        assert forall|s: Seq<char>| #[trigger] f(s) == g(s) by {
            if f(s) {
                let i = choose|i: int|
                    0 <= i < held@.len() && outside::scope_covers(#[trigger] text::texts(held@)[i], s);
                assert(text::texts(held@).contains(text::texts(held@)[i]));
            }
            if g(s) {
                let h = choose|h: Seq<char>|
                    #[trigger] outside::grants(by_role, roles_of(caller), h) && outside::scope_covers(h, s);
                assert(text::texts(held@).contains(h));
                let i = choose|i: int| 0 <= i < held@.len() && text::texts(held@)[i] == h;
                assert(outside::scope_covers(text::texts(held@)[i], s));
            }
        }
        assert(f =~= g);
    }
    decide(default_deny, full_path, public, &demanded, &held, schema_info, auth)
}

/// A public method is open to everybody, whatever else is declared of it.
pub proof fn law_public_is_open(
    registry: ScopeRegistry,
    default_deny: bool,
    path: Seq<char>,
    info: (bool, Seq<Seq<char>>),
    caller: Option<CallerView>,
)
    requires
        outside::is_method_path(path),
        outside::public_methods(registry).contains(path) || info.0,
    ensures
        answer(registry_rule(registry, default_deny, path, info, caller), path) is Ok,
{
}

/// Where nothing is declared and undeclared calls pass, every call passes and none is audited.
pub proof fn law_undeclared_passes(registry: ScopeRegistry, path: Seq<char>, caller: Option<CallerView>)
    requires
        !outside::public_methods(registry).contains(path),
        !outside::scope_overlays(registry).dom().contains(path),
    ensures
        answer(registry_rule(registry, false, path, (false, Seq::empty()), caller), path) is Ok,
        audit_entry(registry_rule(registry, false, path, (false, Seq::empty()), caller), path, caller) is None,
{
}

/// Where nothing undeclared passes, a call gets through only to a public method, or when the
/// caller is signed in and a held scope covers every scope that is required.
pub proof fn law_default_deny_fails_closed(
    registry: ScopeRegistry,
    path: Seq<char>,
    info: (bool, Seq<Seq<char>>),
    caller: Option<CallerView>,
)
    requires
        answer(registry_rule(registry, true, path, info, caller), path) is Ok,
    ensures
        outside::is_method_path(path),
        outside::public_methods(registry).contains(path) || info.0 || {
            &&& is_signed_in(caller)
            &&& forall|i: int|
                0 <= i < requirement(
                    true,
                    path,
                    outside::demanded_scopes(outside::scope_overlays(registry), path),
                    info.1,
                )->0.len() ==> role_covers(
                    outside::role_grants(registry),
                    roles_of(caller),
                    #[trigger] requirement(
                        true,
                        path,
                        outside::demanded_scopes(outside::scope_overlays(registry), path),
                        info.1,
                    )->0[i],
                )
        },
{
    let met = |s: Seq<char>| role_covers(outside::role_grants(registry), roles_of(caller), s);
    let demanded = outside::demanded_scopes(outside::scope_overlays(registry), path);
    if !(outside::public_methods(registry).contains(path) || info.0) {
        lemma_first_unmet(requirement(true, path, demanded, info.1)->0, met);
        assert forall|i: int| 0 <= i < requirement(true, path, demanded, info.1)->0.len() implies role_covers(
            outside::role_grants(registry),
            roles_of(caller),
            #[trigger] requirement(true, path, demanded, info.1)->0[i],
        ) by {
            assert(met(requirement(true, path, demanded, info.1)->0[i]));
        }
    }
}

/// A refused caller learns of one scope only: the first that is required and not held.
pub proof fn law_refusal_names_the_first_missing_scope(
    default_deny: bool,
    path: Seq<char>,
    public: bool,
    demanded: Seq<Seq<char>>,
    declared: Seq<Seq<char>>,
    signed_in: bool,
    met: spec_fn(Seq<char>) -> bool,
)
    requires
        rule(default_deny, path, public, demanded, declared, signed_in, met) is Missing,
    ensures
        ({
            let r = rule(default_deny, path, public, demanded, declared, signed_in, met);
            exists|i: int|
                0 <= i < r->Missing_required.len() && #[trigger] r->Missing_required[i] == r->scope && !met(r->scope)
                    && (forall|j: int| 0 <= j < i ==> met(#[trigger] r->Missing_required[j]))
        }),
{
    let required = requirement(default_deny, path, demanded, declared)->0;
    let r = rule(default_deny, path, public, demanded, declared, signed_in, met);
    lemma_first_unmet(required, met);
    assert(r->Missing_required == required);
    let i = choose|i: int|
        0 <= i < required.len() && #[trigger] required[i] == r->scope && !met(r->scope) && (forall|j: int|
            0 <= j < i ==> met(#[trigger] required[j]));
    assert(r->Missing_required[i] == r->scope);
}

/// Nobody is refused for want of a scope before they have signed in.
pub proof fn law_sign_in_comes_first(
    default_deny: bool,
    path: Seq<char>,
    public: bool,
    demanded: Seq<Seq<char>>,
    declared: Seq<Seq<char>>,
    met: spec_fn(Seq<char>) -> bool,
)
    ensures
        match answer(rule(default_deny, path, public, demanded, declared, false, met), path) {
            Ok(_) => true,
            Err(e) => e is Unauthenticated,
        },
{
}

/// A caller who holds more never reaches less.
pub proof fn law_more_scopes_never_reach_less(
    default_deny: bool,
    path: Seq<char>,
    public: bool,
    demanded: Seq<Seq<char>>,
    declared: Seq<Seq<char>>,
    signed_in: bool,
    fewer: spec_fn(Seq<char>) -> bool,
    more: spec_fn(Seq<char>) -> bool,
)
    requires
        forall|s: Seq<char>| #[trigger] fewer(s) ==> more(s),
        answer(rule(default_deny, path, public, demanded, declared, signed_in, fewer), path) is Ok,
    ensures
        answer(rule(default_deny, path, public, demanded, declared, signed_in, more), path) is Ok,
{
    let required = requirement(default_deny, path, demanded, declared);
    if required is Some {
        lemma_first_unmet(required->0, fewer);
        lemma_first_unmet(required->0, more);
        if !public && signed_in && first_unmet(required->0, more) is Some {
            let i = choose|i: int|
                0 <= i < required->0.len() && #[trigger] required->0[i] == first_unmet(required->0, more)->0;
            assert(fewer(required->0[i]));
        }
    }
}

proof fn lemma_first_unmet(required: Seq<Seq<char>>, met: spec_fn(Seq<char>) -> bool)
    ensures
        match first_unmet(required, met) {
            Some(s) => exists|i: int|
                0 <= i < required.len() && #[trigger] required[i] == s && !met(s) && (forall|j: int|
                    0 <= j < i ==> met(#[trigger] required[j])),
            None => forall|i: int| 0 <= i < required.len() ==> met(#[trigger] required[i]),
        },
    decreases required.len(),
{
    if required.len() > 0 && met(required[0]) {
        let rest = required.skip(1);
        lemma_first_unmet(rest, met);
        match first_unmet(required, met) {
            Some(s) => {
                let i = choose|i: int|
                    0 <= i < rest.len() && #[trigger] rest[i] == s && !met(s) && (forall|j: int|
                        0 <= j < i ==> met(#[trigger] rest[j]));
                assert(required[i + 1] == s);
                assert forall|j: int| 0 <= j < i + 1 implies met(#[trigger] required[j]) by {
                    if j > 0 {
                        assert(rest[j - 1] == required[j]);
                    }
                }
            },
            None => {
                assert forall|i: int| 0 <= i < required.len() implies met(#[trigger] required[i]) by {
                    if i > 0 {
                        assert(rest[i - 1] == required[i]);
                    }
                }
            },
        }
    } else if required.len() > 0 {
        assert(required[0] == first_unmet(required, met)->0);
    }
}

/// Whether somebody has signed in: a user other than the one that stands for nobody, in a
/// session.
pub open spec fn somebody_calls(caller: Option<CallerView>) -> bool {
    caller is Some && caller->0.user_id != "anonymous"@ && caller->0.session_id.len() > 0
}

/// Whether a caller holds a scope: one of their roles is declared and grants a scope that covers
/// it.
pub open spec fn caller_holds(
    by_role: Map<Seq<char>, Set<Seq<char>>>,
    caller: Option<CallerView>,
    scope: Seq<char>,
) -> bool {
    caller is Some && exists|r: int, h: Seq<char>|
        #![trigger caller->0.roles[r], outside::scope_covers(h, scope)]
        0 <= r < caller->0.roles.len() && by_role.dom().contains(caller->0.roles[r]) && by_role[caller->0.roles[r]].contains(
            h,
        ) && outside::scope_covers(h, scope)
}

/// Whether a call is answered as one for which scopes are required. It gets through exactly where
/// somebody has signed in who holds each of them. Nobody is told to sign in; somebody who lacks a
/// scope is told the first that they lack. Every answer is audited, with the method, the
/// required scopes, the caller where there is one, and the decision.
pub open spec fn answered_for(
    v: GateVerdict,
    by_role: Map<Seq<char>, Set<Seq<char>>>,
    path: Seq<char>,
    caller: Option<CallerView>,
    required: Seq<Seq<char>>,
) -> bool {
    &&& v.outcome is Ok <==> somebody_calls(caller) && forall|i: int|
        0 <= i < required.len() ==> caller_holds(by_role, caller, #[trigger] required[i])
    &&& !somebody_calls(caller) ==> v.outcome is Err && v.outcome->Err_0 is Unauthenticated
        && v.outcome->Err_0->Unauthenticated_0@ == "method '"@ + path + "' requires authentication"@
    &&& forall|i: int|
        0 <= i < required.len() && somebody_calls(caller) && !caller_holds(by_role, caller, #[trigger] required[i]) && (
        forall|j: int| 0 <= j < i ==> caller_holds(by_role, caller, #[trigger] required[j])) ==> {
            &&& v.outcome is Err
            &&& v.outcome->Err_0 is Forbidden
            &&& v.outcome->Err_0->reason is MissingScope
            &&& v.outcome->Err_0->reason->scope@ == required[i]
        }
    &&& v.audit is Some
    &&& v.audit->0.method@ == path
    &&& text::texts(v.audit->0.scope_required@) == required
    &&& v.audit->0.decision == AuditDecision::Allow <==> v.outcome is Ok
    &&& v.audit->0.decision == AuditDecision::DenyUnauthenticated <==> !somebody_calls(caller)
    &&& v.audit->0.originator is Some <==> somebody_calls(caller)
    &&& v.audit->0.originator matches Some(u) ==> u@ == caller->0.user_id
    &&& v.audit->0.session_id is Some <==> somebody_calls(caller)
    &&& v.audit->0.session_id matches Some(s) ==> s@ == caller->0.session_id
    &&& caller is Some ==> text::texts(v.audit->0.roles@) == caller->0.roles
    &&& caller is None ==> v.audit->0.roles@.len() == 0
}

proof fn lemma_holding(by_role: Map<Seq<char>, Set<Seq<char>>>, caller: Option<CallerView>, scope: Seq<char>)
    ensures
        role_covers(by_role, roles_of(caller), scope) == caller_holds(by_role, caller, scope),
{
    let roles = roles_of(caller);
    if role_covers(by_role, roles, scope) {
        let h = choose|h: Seq<char>| #[trigger] outside::grants(by_role, roles, h) && outside::scope_covers(h, scope);
        let r = choose|r: int|
            0 <= r < roles.len() && by_role.dom().contains(#[trigger] roles[r]) && by_role[roles[r]].contains(h);
        assert(caller->0.roles[r] == roles[r]);
        assert(outside::scope_covers(h, scope));
    }
    if caller_holds(by_role, caller, scope) {
        let (r, h) = choose|r: int, h: Seq<char>|
            #![trigger caller->0.roles[r], outside::scope_covers(h, scope)]
            0 <= r < caller->0.roles.len() && by_role.dom().contains(caller->0.roles[r])
                && by_role[caller->0.roles[r]].contains(h) && outside::scope_covers(h, scope);
        assert(roles[r] == caller->0.roles[r]);
        assert(outside::grants(by_role, roles, h));
    }
}

proof fn lemma_answered(
    v: GateVerdict,
    registry: ScopeRegistry,
    default_deny: bool,
    path: Seq<char>,
    info: (bool, Seq<Seq<char>>),
    caller: Option<CallerView>,
    required: Seq<Seq<char>>,
)
    requires
        carries_out(v, registry_rule(registry, default_deny, path, info, caller), path, caller),
        outside::is_method_path(path),
        !outside::public_methods(registry).contains(path),
        !info.0,
        requirement(
            default_deny,
            path,
            outside::demanded_scopes(outside::scope_overlays(registry), path),
            info.1,
        ) == Some(required),
    ensures
        answered_for(v, outside::role_grants(registry), path, caller, required),
{
    let by_role = outside::role_grants(registry);
    let met = |s: Seq<char>| role_covers(by_role, roles_of(caller), s);
    assert forall|s: Seq<char>| #[trigger] met(s) == caller_holds(by_role, caller, s) by {
        lemma_holding(by_role, caller, s);
    }
    lemma_first_unmet(required, met);
    assert(is_signed_in(caller) == somebody_calls(caller));
    let unmet = first_unmet(required, met);
    if unmet is Some {
        let k = choose|k: int|
            0 <= k < required.len() && #[trigger] required[k] == unmet->0 && !met(unmet->0) && (forall|j: int|
                0 <= j < k ==> met(#[trigger] required[j]));
        assert(!caller_holds(by_role, caller, required[k]));
        assert forall|i: int|
            0 <= i < required.len() && !caller_holds(by_role, caller, #[trigger] required[i]) && (forall|j: int|
                0 <= j < i ==> caller_holds(by_role, caller, #[trigger] required[j])) implies required[i] == unmet->0 by {
            assert(!met(required[i]));
            if i < k {
                assert(met(required[i]));
            }
        }
    } else {
        assert forall|i: int| 0 <= i < required.len() implies caller_holds(by_role, caller, #[trigger] required[i]) by {
            assert(met(required[i]));
        }
    }
    if caller is None {
        assert(text::texts(v.audit->0.roles@).len() == 0);
    }
}

/// What the deployment overlays is what counts, whatever the schema declares and whatever
/// becomes of undeclared calls: where a method that is not public is overlaid with other scopes
/// than its own path alone, a call to it is answered as one for which those scopes are required.
pub proof fn law_the_overlay_binds(
    v: GateVerdict,
    registry: ScopeRegistry,
    default_deny: bool,
    path: Seq<char>,
    info: (bool, Seq<Seq<char>>),
    caller: Option<CallerView>,
)
    requires
        carries_out(v, registry_rule(registry, default_deny, path, info, caller), path, caller),
        outside::is_method_path(path),
        !outside::public_methods(registry).contains(path),
        !info.0,
        outside::scope_overlays(registry).dom().contains(path),
        outside::scope_overlays(registry)[path] != seq![path],
    ensures
        answered_for(
            v,
            outside::role_grants(registry),
            path,
            caller,
            outside::scope_overlays(registry)[path],
        ),
{
    lemma_answered(v, registry, default_deny, path, info, caller, outside::scope_overlays(registry)[path]);
}

/// Where the deployment overlays nothing of its own, what the schema declares is what counts,
/// whatever becomes of undeclared calls.
pub proof fn law_declared_scopes_bind(
    v: GateVerdict,
    registry: ScopeRegistry,
    default_deny: bool,
    path: Seq<char>,
    info: (bool, Seq<Seq<char>>),
    caller: Option<CallerView>,
)
    requires
        carries_out(v, registry_rule(registry, default_deny, path, info, caller), path, caller),
        outside::is_method_path(path),
        !outside::public_methods(registry).contains(path),
        !info.0,
        !outside::scope_overlays(registry).dom().contains(path) || outside::scope_overlays(registry)[path] == seq![path],
        info.1.len() > 0,
    ensures
        answered_for(v, outside::role_grants(registry), path, caller, info.1),
{
    lemma_answered(v, registry, default_deny, path, info, caller, info.1);
}

/// Where neither the deployment nor the schema says anything of a method that is not public, its
/// own path is required where undeclared calls are denied; else the call gets through, and
/// nothing is audited.
pub proof fn law_an_undeclared_method_goes_by_the_default(
    v: GateVerdict,
    registry: ScopeRegistry,
    default_deny: bool,
    path: Seq<char>,
    caller: Option<CallerView>,
)
    requires
        carries_out(v, registry_rule(registry, default_deny, path, (false, Seq::empty()), caller), path, caller),
        outside::is_method_path(path),
        !outside::public_methods(registry).contains(path),
        !outside::scope_overlays(registry).dom().contains(path) || outside::scope_overlays(registry)[path] == seq![path],
    ensures
        default_deny ==> answered_for(v, outside::role_grants(registry), path, caller, seq![path]),
        !default_deny ==> v.outcome is Ok && v.audit is None,
{
    if default_deny {
        lemma_answered(v, registry, default_deny, path, (false, Seq::empty()), caller, seq![path]);
    }
}

/// A public method is open to everybody and every call to it is audited as allowed, with no scope
/// required.
pub proof fn law_a_public_call_is_audited(
    v: GateVerdict,
    registry: ScopeRegistry,
    default_deny: bool,
    path: Seq<char>,
    info: (bool, Seq<Seq<char>>),
    caller: Option<CallerView>,
)
    requires
        carries_out(v, registry_rule(registry, default_deny, path, info, caller), path, caller),
        outside::is_method_path(path),
        outside::public_methods(registry).contains(path) || info.0,
    ensures
        v.outcome is Ok,
        v.audit is Some,
        v.audit->0.method@ == path,
        v.audit->0.scope_required@.len() == 0,
        v.audit->0.decision == AuditDecision::Allow,
        v.audit->0.originator is Some <==> somebody_calls(caller),
        v.audit->0.originator matches Some(u) ==> u@ == caller->0.user_id,
        v.audit->0.session_id is Some <==> somebody_calls(caller),
        v.audit->0.session_id matches Some(s) ==> s@ == caller->0.session_id,
{
    assert(text::texts(v.audit->0.scope_required@).len() == 0);
}

/// A name that is no method path gets through unaudited, unless undeclared calls are denied: then
/// it is refused under its own name, whoever calls.
pub proof fn law_a_malformed_name_goes_by_the_default(
    v: GateVerdict,
    registry: ScopeRegistry,
    default_deny: bool,
    path: Seq<char>,
    info: (bool, Seq<Seq<char>>),
    caller: Option<CallerView>,
)
    requires
        carries_out(v, registry_rule(registry, default_deny, path, info, caller), path, caller),
        !outside::is_method_path(path),
    ensures
        v.audit is None,
        !default_deny ==> v.outcome is Ok,
        default_deny ==> v.outcome is Err && v.outcome->Err_0 is Forbidden && v.outcome->Err_0->reason is MissingScope
            && v.outcome->Err_0->reason->scope@ == path,
{
}

/// Somebody who holds more roles never reaches less.
pub proof fn law_more_roles_never_reach_less(
    registry: ScopeRegistry,
    default_deny: bool,
    path: Seq<char>,
    info: (bool, Seq<Seq<char>>),
    user_id: Seq<char>,
    session_id: Seq<char>,
    roles: Seq<Seq<char>>,
    more: Seq<Seq<char>>,
)
    requires
        answer(
            registry_rule(registry, default_deny, path, info, Some(CallerView { user_id, session_id, roles })),
            path,
        ) is Ok,
    ensures
        answer(
            registry_rule(
                registry,
                default_deny,
                path,
                info,
                Some(CallerView { user_id, session_id, roles: roles + more }),
            ),
            path,
        ) is Ok,
{
    let by_role = outside::role_grants(registry);
    let a = Some(CallerView { user_id, session_id, roles });
    let b = Some(CallerView { user_id, session_id, roles: roles + more });
    let fewer = |s: Seq<char>| role_covers(by_role, roles_of(a), s);
    let wider = |s: Seq<char>| role_covers(by_role, roles_of(b), s);
    assert forall|s: Seq<char>| #[trigger] fewer(s) implies wider(s) by {
        let h = choose|h: Seq<char>| #[trigger] outside::grants(by_role, roles, h) && outside::scope_covers(h, s);
        let r = choose|r: int|
            0 <= r < roles.len() && by_role.dom().contains(#[trigger] roles[r]) && by_role[roles[r]].contains(h);
        assert((roles + more)[r] == roles[r]);
        assert(outside::grants(by_role, roles + more, h));
    }
    if outside::is_method_path(path) {
        law_more_scopes_never_reach_less(
            default_deny,
            path,
            outside::public_methods(registry).contains(path) || info.0,
            outside::demanded_scopes(outside::scope_overlays(registry), path),
            info.1,
            is_signed_in(a),
            fewer,
            wider,
        );
    }
}

/// A decision takes a caller as their context has them, and a method as its schema declares it.
pub proof fn law_the_gate_sees_things_whole(auth: &AuthContext, info: &MethodGateInfo)
    ensures
        caller_view(None) is None,
        caller_view(Some(auth)) is Some,
        caller_view(Some(auth))->0.user_id == auth.user_id@,
        caller_view(Some(auth))->0.session_id == auth.session_id@,
        caller_view(Some(auth))->0.roles.len() == auth.roles@.len(),
        forall|i: int| 0 <= i < auth.roles@.len() ==> #[trigger] caller_view(Some(auth))->0.roles[i] == auth.roles@[i]@,
        somebody_calls(caller_view(Some(auth))) == auth.authenticated(),
        info_view(None) == (false, Seq::<Seq<char>>::empty()),
        info_view(Some(info)).0 == info.public,
        info_view(Some(info)).1.len() == info.scopes@.len(),
        forall|i: int| 0 <= i < info.scopes@.len() ==> #[trigger] info_view(Some(info)).1[i] == info.scopes@[i]@,
{
}

} // verus!
