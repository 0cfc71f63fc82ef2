//! What the library takes from other crates, and what it believes of it.

use crate::text;
use plexus_auth_core::{MethodPath, RoleName, Scope, ScopeRegistry, TenantId};
use uuid::Uuid;
use vstd::prelude::*;

verus! {

/// Whether `c` has the Unicode property White_Space.
pub open spec fn is_white_space(c: char) -> bool {
    let n = c as int;
    ||| 0x9 <= n <= 0xd
    ||| n == 0x20
    ||| n == 0x85
    ||| n == 0xa0
    ||| n == 0x1680
    ||| 0x2000 <= n <= 0x200a
    ||| n == 0x2028
    ||| n == 0x2029
    ||| n == 0x202f
    ||| n == 0x205f
    ||| n == 0x3000
}

/// `char::is_whitespace` tells whether a character has the property White_Space.
pub assume_specification [char::is_whitespace] (c: char) -> (r: bool)
    ensures
        r == is_white_space(c),
;

/// The uppercase form of a text.
pub uninterp spec fn uppercase(s: Seq<char>) -> Seq<char>;

/// The capital of an ASCII letter; every other character as it is.
pub open spec fn ascii_capital(c: char) -> char {
    if 'a' <= c <= 'z' {
        ((c as int) - 32) as char
    } else {
        c
    }
}

/// The text with its ASCII letters capitalised.
pub open spec fn ascii_capitals(s: Seq<char>) -> Seq<char> {
    Seq::new(s.len(), |i: int| ascii_capital(s[i]))
}

/// Whether a text is made of ASCII characters.
pub open spec fn is_ascii_text(s: Seq<char>) -> bool {
    forall|i: int| 0 <= i < s.len() ==> (#[trigger] s[i] as int) < 128
}

/// `str::to_uppercase` gives the Unicode uppercase form of a text. Of a text made of ASCII
/// characters it capitalises the letters and keeps the rest; what it makes of other
/// characters is not stated.
pub assume_specification [str::to_uppercase] (s: &str) -> (r: String)
    ensures
        r@ == uppercase(s@),
        is_ascii_text(s@) ==> r@ == ascii_capitals(s@),
;

/// The debug form of a list of texts.
pub uninterp spec fn debug_list_form(list: Seq<Seq<char>>) -> Seq<char>;

/// Whether a text is made of printable ASCII characters that need no escape between quotes.
pub open spec fn is_plain_text(s: Seq<char>) -> bool {
    forall|i: int| 0 <= i < s.len() ==> 0x20 <= (#[trigger] s[i] as int) <= 0x7e && s[i] != '"' && s[i] != '\\'
}

/// A text between quotes.
pub open spec fn quoted(s: Seq<char>) -> Seq<char> {
    seq!['"'] + s + seq!['"']
}

/// Texts between quotes, with a comma and a blank between one and the next.
pub open spec fn quoted_items(list: Seq<Seq<char>>) -> Seq<char>
    decreases list.len(),
{
    if list.len() == 0 {
        Seq::empty()
    } else if list.len() == 1 {
        quoted(list[0])
    } else {
        quoted_items(list.drop_last()) + seq![',', ' '] + quoted(list.last())
    }
}

/// `Debug` of a `Vec<String>` writes the quoted and escaped texts in square brackets. What
/// becomes of characters that are escaped is not stated.
#[verifier::external_body]
pub(crate) fn debug_list(list: &Vec<String>) -> (r: String)
    ensures
        r@ == debug_list_form(text::texts(list@)),
        (forall|i: int| 0 <= i < list@.len() ==> is_plain_text((#[trigger] list@[i])@)) ==> r@ == seq!['[']
            + quoted_items(text::texts(list@)) + seq![']'],
{
    format!("{:?}", list)
}

/// `Uuid::new_v4` draws an identifier at random: the version field holds 4, the variant
/// field the RFC 4122 mark, and the other bits are left to chance.
#[verifier::external_body]
pub(crate) fn uuid_v4() -> (r: u128)
    ensures
        (r >> 76) & 0xf == 4,
        (r >> 62) & 0x3 == 2,
{
    Uuid::new_v4().as_u128()
}

/// The name-based identifier of a byte string within a namespace.
pub uninterp spec fn uuid_of_name(namespace: u128, name: Seq<u8>) -> u128;

/// `Uuid::new_v5` computes the name-based identifier of a byte string within a namespace.
#[verifier::external_body]
pub(crate) fn uuid_v5(namespace: u128, name: &[u8]) -> (r: u128)
    ensures
        r == uuid_of_name(namespace, name@),
{
    Uuid::new_v5(&Uuid::from_u128(namespace), name).as_u128()
}

/// The hyphenated form of an identifier: its hexadecimal digits in lowercase, in groups of
/// eight, four, four, four and twelve.
pub open spec fn uuid_form(id: u128) -> Seq<char> {
    let n = id as nat;
    text::hex(n / 0x1_0000_0000_0000_0000_0000_0000, 8) + seq!['-'] + text::hex(n / 0x1_0000_0000_0000_0000_0000, 4)
        + seq!['-'] + text::hex(n / 0x1_0000_0000_0000_0000, 4) + seq!['-'] + text::hex(n / 0x1_0000_0000_0000, 4)
        + seq!['-'] + text::hex(n, 12)
}

/// `Uuid`'s `Display` writes the hyphenated form of an identifier.
#[verifier::external_body]
pub(crate) fn uuid_text(id: u128) -> (r: String)
    ensures
        r@ == uuid_form(id),
{
    Uuid::from_u128(id).to_string()
}

/// A dotted method path: two or more segments, each a lowercase ASCII letter followed by
/// lowercase ASCII letters, digits and underscores.
pub open spec fn is_method_path(s: Seq<char>) -> bool {
    &&& s.contains('.')
    &&& s.last() != '.'
    &&& forall|i: int|
        0 <= i < s.len() ==> {
            ||| #[trigger] s[i] == '.'
            ||| 'a' <= s[i] <= 'z'
            ||| '0' <= s[i] <= '9'
            ||| s[i] == '_'
        }
    &&& 'a' <= s[0] <= 'z'
    &&& forall|i: int, j: int|
        0 <= i && j == i + 1 && j < s.len() && #[trigger] s[i] == '.' ==> 'a' <= #[trigger] s[j] <= 'z'
}

/// `MethodPath::try_new` accepts exactly the dotted method paths.
#[verifier::external_body]
pub(crate) fn method_path_accepts(s: &str) -> (r: bool)
    ensures
        r == is_method_path(s@),
{
    MethodPath::try_new(s).is_ok()
}

/// The debug form of the error on a text that is no method path.
pub uninterp spec fn rejection_form(s: Seq<char>) -> Seq<char>;

/// `MethodPathError`'s `Debug` writes why a text is no method path: that it is empty, or else
/// the text itself. What becomes of characters that are escaped is not stated.
#[verifier::external_body]
pub(crate) fn method_path_rejection(s: &str) -> (r: String)
    requires
        !is_method_path(s@),
    ensures
        r@ == rejection_form(s@),
        s@.len() == 0 ==> r@ == "Empty"@,
        s@.len() > 0 && is_plain_text(s@) ==> r@ == "InvalidFormat("@ + quoted(s@) + ")"@,
{
    format!("{:?}", MethodPath::try_new(s).unwrap_err())
}

/// A tenant identifier: one to 256 bytes, none of them a control byte.
pub open spec fn is_tenant_id(s: Seq<char>) -> bool {
    let bytes = vstd::utf8::encode_utf8(s);
    &&& 0 < bytes.len() <= 256
    &&& forall|i: int| 0 <= i < bytes.len() ==> 0x20 <= #[trigger] bytes[i] && bytes[i] != 0x7f
}

/// `TenantId::try_new` accepts exactly the tenant identifiers.
#[verifier::external_body]
pub(crate) fn tenant_id_accepts(s: &str) -> (r: bool)
    ensures
        r == is_tenant_id(s@),
{
    TenantId::try_new(s).is_ok()
}

/// Whether a held scope satisfies a required one: it is `*`, it is the same, or it is
/// `<prefix>.*` and the required scope continues the prefix with a dot.
pub open spec fn scope_covers(held: Seq<char>, required: Seq<char>) -> bool {
    ||| held == seq!['*']
    ||| held == required
    ||| {
        &&& held.len() >= 2
        &&& held.last() == '*'
        &&& held[held.len() - 2] == '.'
        &&& required.len() > held.len() - 2
        &&& required.take(held.len() - 2) == held.take(held.len() - 2)
        &&& required[held.len() - 2] == '.'
    }
}

/// `Scope::matches` tells whether a held scope satisfies a required one.
#[verifier::external_body]
pub(crate) fn scope_matches(held: &str, required: &str) -> (r: bool)
    ensures
        r == scope_covers(held@, required@),
{
    Scope::new(held).matches(&Scope::new(required))
}

/// The roles, public methods and scope overlays of a deployment.
#[verifier::external_type_specification]
#[verifier::external_body]
pub struct ExScopeRegistry(ScopeRegistry);

/// The methods that a registry declares public.
pub uninterp spec fn public_methods(registry: ScopeRegistry) -> Set<Seq<char>>;

/// The scopes that a registry demands of the methods that it names.
pub uninterp spec fn scope_overlays(registry: ScopeRegistry) -> Map<Seq<char>, Seq<Seq<char>>>;

/// The scopes that a role of a registry grants, by itself or through the roles it inherits.
pub uninterp spec fn role_grants(registry: ScopeRegistry) -> Map<Seq<char>, Set<Seq<char>>>;

/// The scopes that overlays demand of a method: its own overlay, or else the method's own path.
pub open spec fn demanded_scopes(overlays: Map<Seq<char>, Seq<Seq<char>>>, method: Seq<char>) -> Seq<Seq<char>> {
    if overlays.dom().contains(method) {
        overlays[method]
    } else {
        seq![method]
    }
}

/// Whether one of the roles grants the scope.
pub open spec fn grants(by_role: Map<Seq<char>, Set<Seq<char>>>, roles: Seq<Seq<char>>, scope: Seq<char>) -> bool {
    exists|i: int|
        0 <= i < roles.len() && by_role.dom().contains(#[trigger] roles[i]) && by_role[roles[i]].contains(scope)
}

/// Whether the scopes are those that one of the roles grants.
pub open spec fn holds_grants(
    scopes: Seq<Seq<char>>,
    by_role: Map<Seq<char>, Set<Seq<char>>>,
    roles: Seq<Seq<char>>,
) -> bool {
    forall|s: Seq<char>| #[trigger] scopes.contains(s) <==> grants(by_role, roles, s)
}

/// `ScopeRegistry::is_public` tells whether a method was declared public.
#[verifier::external_body]
pub(crate) fn registry_is_public(registry: &ScopeRegistry, method: &str) -> (r: bool)
    requires
        is_method_path(method@),
    ensures
        r == public_methods(*registry).contains(method@),
{
    registry.is_public(&MethodPath::try_new(method).unwrap())
}

/// `ScopeRegistry::required_scopes_for` gives the overlay of a method, or else its own path.
#[verifier::external_body]
pub(crate) fn registry_demands(registry: &ScopeRegistry, method: &str) -> (r: Vec<String>)
    requires
        is_method_path(method@),
    ensures
        text::texts(r@) == demanded_scopes(scope_overlays(*registry), method@),
{
    let path = MethodPath::try_new(method).unwrap();
    registry.required_scopes_for(&path).iter().map(|s| s.as_str().to_string()).collect()
}

/// `ScopeRegistry::effective_scopes` gives every scope that one of the roles grants. A role
/// that the registry does not declare grants nothing.
#[verifier::external_body]
pub(crate) fn registry_grants(registry: &ScopeRegistry, roles: &Vec<String>) -> (r: Vec<String>)
    ensures
        holds_grants(text::texts(r@), role_grants(*registry), text::texts(roles@)),
{
    let names: Vec<RoleName> = roles.iter().map(|r| RoleName::new(r.as_str())).collect();
    registry.effective_scopes(&names).iter().map(|s| s.as_str().to_string()).collect()
}

/// `ScopeRegistry::default` is the registry that declares nothing.
#[verifier::external_body]
pub(crate) fn registry_default() -> (r: ScopeRegistry)
    ensures
        public_methods(r) == Set::<Seq<char>>::empty(),
        scope_overlays(r).dom() == Set::<Seq<char>>::empty(),
        role_grants(r).dom() == Set::<Seq<char>>::empty(),
{
    ScopeRegistry::default()
}

} // verus!
