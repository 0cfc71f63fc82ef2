//! The raw request behind a call.

use crate::auth::AuthContext;
use crate::json::Json;
use crate::plexus::error::PlexusError;
use crate::text;
use crate::text::{has_prefix, split_all, trim_text};
use vstd::prelude::*;

verus! {

/// What the transport knows of the request behind a call.
pub struct RawRequestContext {
    /// The headers: each name with the bytes of its value.
    pub headers: Vec<(String, Vec<u8>)>,
    pub uri: String,
    pub auth: Option<AuthContext>,
    pub peer: Option<String>,
}

/// What can be read out of a request.
pub trait PlexusRequest: Sized {
    /// Reads the value out of a request, or says why it cannot be had.
    fn extract(ctx: &RawRequestContext) -> (r: Result<Self, PlexusError>);

    /// The schema of what is read.
    fn request_schema() -> (r: Option<Json>)
        default_ensures
            r is None,
    {
        None
    }
}

/// A part of a request that is read and checked by itself.
pub trait PlexusRequestField: Sized {
    /// Reads the part out of a request, or says why it cannot be had.
    fn extract_from_raw(ctx: &RawRequestContext) -> (r: Result<Self, PlexusError>);
}

/// The value of the first part that, trimmed, is the name, an equals sign and a value.
pub open spec fn cookie_in(parts: Seq<Seq<char>>, name: Seq<char>) -> Option<Seq<char>>
    decreases parts.len(),
{
    if parts.len() == 0 {
        None
    } else if text::starts_with(text::trimmed(parts[0]), name + seq!['=']) {
        Some(text::trimmed(parts[0]).skip(name.len() as int + 1))
    } else {
        cookie_in(parts.skip(1), name)
    }
}

/// The value of a cookie in a `Cookie` header.
pub fn parse_cookie<'a>(cookie_str: &'a str, name: &str) -> (r: Option<&'a str>)
    ensures
        match r {
            Some(v) => cookie_in(text::segments(cookie_str@, ';'), name@) == Some(v@),
            None => cookie_in(text::segments(cookie_str@, ';'), name@) is None,
        },
{
    let parts = split_all(cookie_str, ';');
    let ghost all = text::segments(cookie_str@, ';');
    let n = name.unicode_len();
    assert(all.skip(0) =~= all);
    let mut i: usize = 0;
    while i < parts.len()
        invariant
            all == text::segments(cookie_str@, ';'),
            parts@.len() == all.len(),
            forall|j: int| 0 <= j < parts@.len() ==> (#[trigger] parts@[j])@ == all[j],
            n == name@.len(),
            i <= parts.len(),
            cookie_in(all, name@) == cookie_in(all.skip(i as int), name@),
        decreases parts.len() - i,
    {
        let part = trim_text(parts[i]);
        let ghost key = name@ + seq!['='];
        assert(all.skip(i as int)[0] == all[i as int]);
        let m = part.unicode_len();
        if has_prefix(part, name) && n < m && part.get_char(n) == '=' {
            assert(part@.take(key.len() as int) =~= key);
            let v = part.substring_char(n + 1, m);
            assert(v@ =~= part@.skip(name@.len() as int + 1));
            return Some(v);
        }
        proof {
            if text::starts_with(part@, key) {
                assert(part@.take(key.len() as int)[n as int] == '=');
                assert(part@.take(n as int) =~= key.take(n as int));
                assert(key.take(n as int) =~= name@);
            }
            assert(all.skip(i as int).skip(1) =~= all.skip(i + 1));
        }
        i += 1;
    }
    None
}

/// A cookie is found in the first part that, trimmed, is its name, an equals sign and its value,
/// and its value is all that stands behind the sign; it is not found where no part is so.
pub proof fn law_a_cookie_is_found_under_its_name(
    parts: Seq<Seq<char>>,
    name: Seq<char>,
    i: int,
    value: Seq<char>,
)
    requires
        0 <= i < parts.len(),
        text::trimmed(parts[i]) == name + seq!['='] + value,
        forall|j: int, v: Seq<char>|
            #![trigger parts[j], name + seq!['='] + v]
            0 <= j < i ==> text::trimmed(parts[j]) != name + seq!['='] + v,
    ensures
        cookie_in(parts, name) == Some(value),
    decreases parts.len(),
{
    let key = name + seq!['='];
    if i == 0 {
        let t = text::trimmed(parts[0]);
        assert(t.take(key.len() as int) =~= key);
        assert(t.skip(name.len() as int + 1) =~= value);
    } else {
        let t = text::trimmed(parts[0]);
        if text::starts_with(t, key) {
            let v = t.skip(key.len() as int);
            assert(t =~= name + seq!['='] + v);
            assert(parts[0] == parts[0]);
            assert(false);
        }
        let rest = parts.skip(1);
        assert(rest[i - 1] == parts[i]);
        assert forall|j: int, v: Seq<char>|
            #![trigger rest[j], name + seq!['='] + v]
            0 <= j < i - 1 implies text::trimmed(rest[j]) != name + seq!['='] + v by {
            assert(rest[j] == parts[j + 1]);
        }
        law_a_cookie_is_found_under_its_name(rest, name, i - 1, value);
    }
}

/// What is found for a cookie is there: some part, trimmed, is the name, an equals sign and what
/// was found.
pub proof fn law_a_found_cookie_is_there(parts: Seq<Seq<char>>, name: Seq<char>)
    ensures
        cookie_in(parts, name) matches Some(v) ==> exists|i: int|
            0 <= i < parts.len() && text::trimmed(#[trigger] parts[i]) == name + seq!['='] + v,
    decreases parts.len(),
{
    if parts.len() > 0 {
        let key = name + seq!['='];
        let t = text::trimmed(parts[0]);
        if text::starts_with(t, key) {
            assert(t =~= name + seq!['='] + t.skip(name.len() as int + 1));
            assert(text::trimmed(parts[0]) == t);
        } else {
            let rest = parts.skip(1);
            law_a_found_cookie_is_there(rest, name);
            if cookie_in(rest, name) is Some {
                let v = cookie_in(rest, name)->0;
                let i = choose|i: int| 0 <= i < rest.len() && text::trimmed(#[trigger] rest[i]) == name + seq!['='] + v;
                assert(parts[i + 1] == rest[i]);
            }
        }
    }
}

} // verus!
