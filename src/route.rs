//! Which requests reach the upload handler.
//!
//! An upload is a `POST` to the single path segment `upload.<ext>`, carrying an
//! `Authorization` header equal to `Bearer <token>`. Everything else, including a
//! missing or wrong token, is answered exactly as a path that matches nothing.
use vstd::prelude::*;

use crate::text::{chars_equal, chars_of, concat_chars, opt_chars, opt_str_chars, slice_chars, string_of};

verus! {

/// Longest extension an upload may carry.
pub const MAX_EXT_LEN: usize = 5;

pub open spec fn is_ascii_alnum(c: char) -> bool {
    ('0' <= c && c <= '9') || ('A' <= c && c <= 'Z') || ('a' <= c && c <= 'z')
}

/// One to five ASCII letters or digits.
pub open spec fn valid_ext(e: Seq<char>) -> bool {
    1 <= e.len() <= MAX_EXT_LEN && forall|i: int| 0 <= i < e.len() ==> is_ascii_alnum(#[trigger] e[i])
}

pub open spec fn upload_stem() -> Seq<char> {
    seq!['u', 'p', 'l', 'o', 'a', 'd', '.']
}

pub open spec fn bearer_prefix() -> Seq<char> {
    seq!['B', 'e', 'a', 'r', 'e', 'r', ' ']
}

/// The extension named by the path segment `upload.<ext>`, if it is one.
pub open spec fn upload_ext_of(segment: Seq<char>) -> Option<Seq<char>> {
    if segment.len() > upload_stem().len()
        && segment.subrange(0, upload_stem().len() as int) == upload_stem()
        && valid_ext(segment.subrange(upload_stem().len() as int, segment.len() as int)) {
        Some(segment.subrange(upload_stem().len() as int, segment.len() as int))
    } else {
        None
    }
}

/// The header value that authorizes an upload.
pub open spec fn bearer_of(token: Seq<char>) -> Seq<char> {
    bearer_prefix() + token
}

pub open spec fn authorized(authorization: Option<Seq<char>>, token: Seq<char>) -> bool {
    authorization == Some(bearer_of(token))
}

/// What the upload route does with a request: `Some(ext)` accepts the body as a
/// new artifact with that extension, `None` answers "not found".
pub open spec fn upload_route_spec(
    is_post: bool,
    segments: Seq<Seq<char>>,
    authorization: Option<Seq<char>>,
    token: Seq<char>,
) -> Option<Seq<char>> {
    if is_post && segments.len() == 1 && upload_ext_of(segments[0]) is Some
        && authorized(authorization, token) {
        upload_ext_of(segments[0])
    } else {
        None
    }
}

pub fn is_ascii_alphanumeric(c: char) -> (r: bool)
    ensures
        r == is_ascii_alnum(c),
{
    ('0' <= c && c <= '9') || ('A' <= c && c <= 'Z') || ('a' <= c && c <= 'z')
}

/// Whether `ext` may name the extension of an upload.
pub fn is_valid_ext(ext: &str) -> (r: bool)
    ensures
        r == valid_ext(ext@),
{
    let e = chars_of(ext);
    if e.len() < 1 || e.len() > MAX_EXT_LEN {
        return false;
    }
    let mut i: usize = 0;
    while i < e.len()
        invariant
            i <= e.len(),
            e@ == ext@,
            forall|k: int| 0 <= k < i ==> is_ascii_alnum(#[trigger] e@[k]),
        decreases e.len() - i,
    {
        if !is_ascii_alphanumeric(e[i]) {
            return false;
        }
        i = i + 1;
    }
    true
}

/// The extension of an upload path segment `upload.<ext>`, or `None` when the
/// segment is anything else.
pub fn parse_upload_segment(segment: &str) -> (r: Option<String>)
    ensures
        opt_chars(r) == upload_ext_of(segment@),
{
    let s = chars_of(segment);
    let stem = chars_of("upload.");
    proof {
        reveal_strlit("upload.");
        assert(stem@ =~= upload_stem());
    }
    if s.len() <= stem.len() {
        return None;
    }
    let mut i: usize = 0;
    while i < stem.len()
        invariant
            i <= stem.len() < s.len(),
            s@ == segment@,
            stem@ == upload_stem(),
            forall|k: int| 0 <= k < i ==> s@[k] == stem@[k],
        decreases stem.len() - i,
    {
        if s[i] != stem[i] {
            assert(s@.subrange(0, stem.len() as int)[i as int] != upload_stem()[i as int]);
            return None;
        }
        i = i + 1;
    }
    assert(s@.subrange(0, stem.len() as int) =~= upload_stem());
    let ext = string_of(slice_chars(s.as_slice(), stem.len(), s.len()).as_slice());
    assert(ext@ =~= segment@.subrange(upload_stem().len() as int, segment@.len() as int));
    if is_valid_ext(ext.as_str()) {
        Some(ext)
    } else {
        None
    }
}

/// The `Authorization` header value that carries `token`.
pub fn bearer_header(token: &str) -> (r: String)
    ensures
        r@ == bearer_of(token@),
{
    let prefix = chars_of("Bearer ");
    proof {
        reveal_strlit("Bearer ");
        assert(prefix@ =~= bearer_prefix());
    }
    let t = chars_of(token);
    string_of(concat_chars(prefix.as_slice(), t.as_slice()).as_slice())
}

/// Whether the `Authorization` header value is exactly `Bearer <token>`.
pub fn is_authorized(authorization: Option<&str>, token: &str) -> (r: bool)
    ensures
        r == authorized(opt_str_chars(authorization), token@),
{
    match authorization {
        None => false,
        Some(a) => {
            let expected = chars_of(bearer_header(token).as_str());
            let got = chars_of(a);
            chars_equal(got.as_slice(), expected.as_slice())
        },
    }
}

/// Decides an incoming request on the upload route: `Some(ext)` when it is an
/// authorized `POST` to `upload.<ext>`, `None` (answered as "not found") otherwise.
pub fn upload_route(is_post: bool, segments: &Vec<String>, authorization: Option<&str>, token: &str) -> (r: Option<String>)
    ensures
        opt_chars(r) == upload_route_spec(is_post, segments.deep_view(), opt_str_chars(authorization), token@),
{
    if !is_post || segments.len() != 1 {
        return None;
    }
    let ext = parse_upload_segment(segments[0].as_str());
    match ext {
        None => None,
        Some(e) => {
            if is_authorized(authorization, token) {
                Some(e)
            } else {
                None
            }
        },
    }
}

/// A request without the right bearer token gets the same answer as a request
/// for a path that no route matches, whatever path it names.
pub proof fn lemma_unauthorized_is_unmatched(
    is_post: bool,
    segments: Seq<Seq<char>>,
    authorization: Option<Seq<char>>,
    token: Seq<char>,
    unmatched: Seq<Seq<char>>,
    any_authorization: Option<Seq<char>>,
)
    requires
        !authorized(authorization, token),
        !(unmatched.len() == 1 && upload_ext_of(unmatched[0]) is Some),
    ensures
        upload_route_spec(is_post, segments, authorization, token)
            == upload_route_spec(is_post, unmatched, any_authorization, token),
        upload_route_spec(is_post, segments, authorization, token) is None,
{
}

} // verus!
