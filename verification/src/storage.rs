//! Names of what the player keeps on disk: the cached audio of each track
//! and the cookie records of the login session.
use vstd::prelude::*;
use crate::text::{chars_of, decimal, push_all, push_decimal, string_from_chars};

verus! {

/// The cache file of a track: `cache/` and its id in decimal.
pub open spec fn cache_path_text(id: nat) -> Seq<char> {
    "cache/"@ + decimal(id)
}

/// The cookie record saved for a cookie of the session: lasting a year,
/// scoped to the music domain and to the path it came from.
pub open spec fn cookie_record_text(name: Seq<char>, value: Seq<char>, path: Seq<char>) -> Seq<
    char,
> {
    name + "="@ + value + "; Path="@ + path + "; Domain=music.163.com; Max-Age=31536000"@
}

/// The path a restored cookie is set for: its own, or the root.
pub open spec fn restored_path(path: Option<Seq<char>>) -> Seq<char> {
    match path {
        Some(p) => p,
        None => "/"@,
    }
}

/// The cache file of a track.
pub fn cache_path(id: u64) -> (s: String)
    ensures
        s@ == cache_path_text(id as nat),
{
    let mut out = chars_of("cache/");
    push_decimal(id, &mut out);
    string_from_chars(&out)
}

/// The cookie record saved for a cookie of the session.
pub fn cookie_record(name: &str, value: &str, path: &str) -> (s: String)
    ensures
        s@ == cookie_record_text(name@, value@, path@),
{
    let mut out = chars_of(name);
    push_all(&mut out, &chars_of("="));
    push_all(&mut out, &chars_of(value));
    push_all(&mut out, &chars_of("; Path="));
    push_all(&mut out, &chars_of(path));
    push_all(&mut out, &chars_of("; Domain=music.163.com; Max-Age=31536000"));
    string_from_chars(&out)
}

/// The path a restored cookie is set for.
pub fn restored_cookie_path(path: Option<&str>) -> (s: String)
    ensures
        s@ == restored_path(
            match path {
                Some(p) => Some(p@),
                None => None,
            },
        ),
{
    match path {
        Some(p) => string_from_chars(&chars_of(p)),
        None => string_from_chars(&chars_of("/")),
    }
}

} // verus!
