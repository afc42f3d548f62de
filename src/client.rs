//! What the command-line uploaders compute: where to send, what to print, and
//! which clipboard types are on offer.
use vstd::prelude::*;

use mime::Mime;

use crate::markdown::is_white_space;
use crate::markdown::is_white_space_char;
use crate::text::{append_str, chars_of, slice_chars, string_of};

verus! {

/// Whether `mime` parses `s` as a media type.
pub uninterp spec fn mime_parses(s: Seq<char>) -> bool;

/// Relies on `Mime`'s `FromStr`: whether the text parses as a media type.
#[verifier::external_body]
fn parses_as_mime(s: &str) -> (r: bool)
    ensures
        r == mime_parses(s@),
{
    s.parse::<Mime>().is_ok()
}

/// `s` without its trailing slashes.
pub open spec fn trim_slashes(s: Seq<char>) -> Seq<char>
    decreases s.len(),
{
    if s.len() > 0 && s.last() == '/' {
        trim_slashes(s.drop_last())
    } else {
        s
    }
}

pub open spec fn upload_path_prefix() -> Seq<char> {
    seq!['/', 'u', 'p', 'l', 'o', 'a', 'd', '.']
}

/// Where an upload with extension `ext` is sent, below the server's base URL.
pub open spec fn upload_url_of(base: Seq<char>, ext: Seq<char>) -> Seq<char> {
    trim_slashes(base) + upload_path_prefix() + ext
}

/// Where the stored artifact called `name` can be fetched.
pub open spec fn artifact_url_of(base: Seq<char>, name: Seq<char>) -> Seq<char> {
    trim_slashes(base) + seq!['/'] + name
}

fn trimmed_base(base: &str) -> (r: Vec<char>)
    ensures
        r@ == trim_slashes(base@),
{
    let b = chars_of(base);
    let mut end: usize = b.len();
    assert(b@.subrange(0, end as int) =~= b@);
    while end > 0 && b[end - 1] == '/'
        invariant
            end <= b@.len(),
            b@ == base@,
            trim_slashes(b@.subrange(0, end as int)) == trim_slashes(base@),
        decreases end,
    {
        assert(b@.subrange(0, end as int).drop_last() =~= b@.subrange(0, end - 1));
        end = end - 1;
    }
    slice_chars(b.as_slice(), 0, end)
}

/// The URL that an upload with extension `ext` is posted to: the base URL
/// without trailing slashes, then `/upload.<ext>`.
pub fn upload_url(base: &str, ext: &str) -> (r: String)
    ensures
        r@ == upload_url_of(base@, ext@),
{
    let mut out = trimmed_base(base);
    proof {
        reveal_strlit("/upload.");
    }
    append_str(&mut out, "/upload.");
    append_str(&mut out, ext);
    assert(out@ =~= upload_url_of(base@, ext@));
    string_of(out.as_slice())
}

/// The URL of a stored artifact, as the uploaders print it: the base URL
/// without trailing slashes, `/`, then the name the server answered with.
pub fn artifact_url(base: &str, name: &str) -> (r: String)
    ensures
        r@ == artifact_url_of(base@, name@),
{
    let mut out = trimmed_base(base);
    out.push('/');
    append_str(&mut out, name);
    string_of(out.as_slice())
}

/// The program and arguments that list the media types on the clipboard.
pub fn make_existing_mimes_command() -> (r: (&'static str, &'static [&'static str]))
    ensures
        r.0@ == "wl-paste"@,
        r.1@.len() == 1,
        r.1@[0]@ == "--list-types"@,
{
    ("wl-paste", &["--list-types"])
}

/// The program and arguments that print the clipboard's content as `mime`.
pub fn make_clipboard_command(mime: &str) -> (r: (&str, Vec<&str>))
    ensures
        r.0@ == "wl-paste"@,
        r.1@.len() == 2,
        r.1@[0]@ == "--type"@,
        r.1@[1]@ == mime@,
{
    ("wl-paste", vec!["--type", mime])
}

/// `s` without leading and trailing white space.
pub open spec fn trim_start(s: Seq<char>) -> Seq<char>
    decreases s.len(),
{
    if s.len() > 0 && is_white_space(s[0]) {
        trim_start(s.drop_first())
    } else {
        s
    }
}

pub open spec fn trim_end(s: Seq<char>) -> Seq<char>
    decreases s.len(),
{
    if s.len() > 0 && is_white_space(s.last()) {
        trim_end(s.drop_last())
    } else {
        s
    }
}

pub open spec fn trimmed(s: Seq<char>) -> Seq<char> {
    trim_end(trim_start(s))
}

/// Space, tab, line feed, form feed and carriage return.
pub open spec fn is_ascii_space(c: char) -> bool {
    c == ' ' || c == '\t' || c == '\n' || c == '\x0C' || c == '\r'
}

/// Reading left to right: the words finished so far and the word under way.
pub open spec fn word_state(s: Seq<char>) -> (Seq<Seq<char>>, Seq<char>)
    decreases s.len(),
{
    if s.len() == 0 {
        (Seq::empty(), Seq::empty())
    } else {
        let (done, cur) = word_state(s.drop_last());
        if is_ascii_space(s.last()) {
            if cur.len() > 0 {
                (done.push(cur), Seq::empty())
            } else {
                (done, cur)
            }
        } else {
            (done, cur.push(s.last()))
        }
    }
}

/// The non-empty runs of characters between ASCII white space.
pub open spec fn ascii_words(s: Seq<char>) -> Seq<Seq<char>> {
    let (done, cur) = word_state(s);
    if cur.len() > 0 {
        done.push(cur)
    } else {
        done
    }
}

/// The words that parse as media types, in order.
pub open spec fn parsing_words(words: Seq<Seq<char>>) -> Seq<Seq<char>>
    decreases words.len(),
{
    if words.len() == 0 {
        Seq::empty()
    } else {
        let k = parsing_words(words.drop_last());
        if mime_parses(words.last()) {
            k.push(words.last())
        } else {
            k
        }
    }
}

fn trim_chars(s: &[char]) -> (r: Vec<char>)
    ensures
        r@ == trimmed(s@),
{
    let mut start: usize = 0;
    assert(s@.subrange(0, s@.len() as int) =~= s@);
    while start < s.len() && is_white_space_char(s[start])
        invariant
            start <= s@.len(),
            trim_start(s@.subrange(start as int, s@.len() as int)) == trim_start(s@),
        decreases s.len() - start,
    {
        assert(s@.subrange(start as int, s@.len() as int).drop_first() =~= s@.subrange(start + 1, s@.len() as int));
        start = start + 1;
    }
    let mut end: usize = s.len();
    let ghost t = s@.subrange(start as int, s@.len() as int);
    assert(t.subrange(0, t.len() as int) =~= t);
    while end > start && is_white_space_char(s[end - 1])
        invariant
            start <= end <= s@.len(),
            t == s@.subrange(start as int, s@.len() as int),
            trim_end(s@.subrange(start as int, end as int)) == trim_end(t),
        decreases end,
    {
        assert(s@.subrange(start as int, end as int).drop_last() =~= s@.subrange(start as int, end - 1));
        end = end - 1;
    }
    slice_chars(s, start, end)
}

/// The words of a listing after trimming, such as the media types or the
/// URIs that the clipboard offers.
pub fn listed_words(stdout: &str) -> (r: Vec<String>)
    ensures
        r.deep_view() == ascii_words(trimmed(stdout@)),
{
    let all = chars_of(stdout);
    let t = trim_chars(all.as_slice());
    let mut done: Vec<String> = Vec::new();
    let mut cur: Vec<char> = Vec::new();
    let mut i: usize = 0;
    while i < t.len()
        invariant
            i <= t@.len(),
            t@ == trimmed(stdout@),
            (done.deep_view(), cur@) == word_state(t@.subrange(0, i as int)),
        decreases t.len() - i,
    {
        let c = t[i];
        assert(t@.subrange(0, i + 1).drop_last() =~= t@.subrange(0, i as int));
        assert(t@.subrange(0, i + 1).last() == c);
        if c == ' ' || c == '\t' || c == '\n' || c == '\x0C' || c == '\r' {
            if cur.len() > 0 {
                let ghost before = done.deep_view();
                let w = string_of(cur.as_slice());
                done.push(w);
                assert(done.deep_view() =~= before.push(cur@));
                cur = Vec::new();
                assert(cur@ =~= Seq::<char>::empty());
            }
        } else {
            cur.push(c);
        }
        i = i + 1;
    }
    assert(t@.subrange(0, t@.len() as int) =~= t@);
    if cur.len() > 0 {
        let ghost before = done.deep_view();
        let w = string_of(cur.as_slice());
        done.push(w);
        assert(done.deep_view() =~= before.push(cur@));
    }
    done
}

/// The media types listed in `stdout`: its words that parse as media types,
/// in order and as written; words that do not parse are skipped.
pub fn parse_existing_mimes(stdout: String) -> (r: Vec<String>)
    ensures
        r.deep_view() == parsing_words(ascii_words(trimmed(stdout@))),
{
    let words = listed_words(stdout.as_str());
    let ghost ws = words.deep_view();
    let mut out: Vec<String> = Vec::new();
    let mut i: usize = 0;
    while i < words.len()
        invariant
            i <= words@.len(),
            ws == words.deep_view(),
            out.deep_view() == parsing_words(ws.subrange(0, i as int)),
        decreases words.len() - i,
    {
        assert(ws.subrange(0, i + 1).drop_last() =~= ws.subrange(0, i as int));
        assert(ws.subrange(0, i + 1).last() == words[i as int]@);
        if parses_as_mime(words[i].as_str()) {
            let ghost before = out.deep_view();
            let w = words[i].clone();
            out.push(w);
            assert(out.deep_view() =~= before.push(ws[i as int]));
        }
        i = i + 1;
    }
    assert(ws.subrange(0, ws.len() as int) =~= ws);
    out
}

} // verus!
