//! What the store's callers read out of a request before touching the
//! store: whether the caller wants a plaintext response, and how a paste
//! path parameter splits into identifier and extension.

use vstd::prelude::*;
use crate::text::{find_char, find_ix, str_eq_chars};
use vstd::string::StrSliceExecFns;

verus! {

/// Holds a value that determines whether or not this request wanted a
/// plaintext response.
pub struct IsPlaintextRequest(pub bool);

/// Whether a request with this `Content-Type` value and this `User-Agent`
/// header wants plaintext: anything declaring `text/plain`, anything
/// calling from the console, and anything without an identifiable agent.
pub open spec fn spec_wants_plaintext(ct: Seq<char>, ua: Option<Seq<char>>) -> bool {
    if ct == "text/plain"@ {
        true
    } else {
        match ua {
            None => true,
            Some(u) => {
                let agent = u.take(find_ix(u, '/'));
                agent == "Wget"@ || agent == "curl"@ || agent == "HTTPie"@
            },
        }
    }
}

/// We assume anything with the text/plain Accept or Content-Type headers
/// wants plaintext, and also anything calling us from the console or that
/// we can't identify. The agent name is what stands before the first '/'
/// of the `User-Agent` value.
pub fn wants_plaintext(content_type: &str, user_agent: Option<&str>) -> (r: bool)
    ensures
        r == spec_wants_plaintext(
            content_type@,
            match user_agent {
                Some(u) => Some(u@),
                None => None,
            },
        ),
{
    if str_eq_chars(content_type, "text/plain") {
        return true;
    }
    match user_agent {
        None => true,
        Some(ua) => {
            let ix = find_char(ua, '/');
            let agent = ua.substring_char(0, ix);
            str_eq_chars(agent, "Wget") || str_eq_chars(agent, "curl") || str_eq_chars(
                agent,
                "HTTPie",
            )
        },
    }
}

/// Splits a paste path parameter at its first '.': what stands before is
/// the identifier to look up, what stands after is the extension that
/// picks the highlighting syntax. Without a '.' the whole parameter is the
/// identifier and there is no extension.
pub fn split_paste_key<'a>(key: &'a str) -> (r: (&'a str, Option<&'a str>))
    ensures
        find_ix(key@, '.') < key@.len() ==> r.0@ == key@.take(find_ix(key@, '.')) && (
        r.1 matches Some(ext) && ext@ == key@.skip(find_ix(key@, '.') + 1)),
        find_ix(key@, '.') == key@.len() ==> r.0@ == key@ && r.1 is None,
{
    let n = key.unicode_len();
    let ix = find_char(key, '.');
    if ix < n {
        let head = key.substring_char(0, ix);
        let ext = key.substring_char(ix + 1, n);
        (head, Some(ext))
    } else {
        (key, None)
    }
}

} // verus!
