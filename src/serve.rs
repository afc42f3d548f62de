//! How a stored artifact is served: verbatim, or rendered as a page.
use vstd::prelude::*;

use crate::naming::{artifact_name, base_name_ok};
use crate::route::valid_ext;
use crate::text::{chars_of, chars_equal, opt_chars, slice_chars, string_of};

verus! {

/// What is done to a stored artifact before it is served.
#[derive(PartialEq, Eq, Structural, Clone, Copy, Debug)]
pub enum PostProcess {
    /// Rendered into a page with its title and description.
    Markdown,
    /// Themed, inside its own head or a shell.
    Html,
    /// Served as stored, with a content type guessed from the extension.
    Verbatim,
}

/// Index `i` holds the last `.` of `name`.
pub open spec fn is_last_dot(name: Seq<char>, i: int) -> bool {
    0 <= i < name.len() && name[i] == '.' && forall|j: int| i < j < name.len() ==> name[j] != '.'
}

pub open spec fn dot_dot() -> Seq<char> {
    seq!['.', '.']
}

/// The extension of a file name: what follows its last `.`, unless that `.`
/// opens the name (a hidden file) or the name is `..`.
pub open spec fn extension_of(name: Seq<char>) -> Option<Seq<char>> {
    if name != dot_dot() && exists|i: int| 0 < i && is_last_dot(name, i) {
        let i = choose|i: int| 0 < i && is_last_dot(name, i);
        Some(name.subrange(i + 1, name.len() as int))
    } else {
        None
    }
}

pub open spec fn postprocess_of(ext: Seq<char>) -> PostProcess {
    if ext == seq!['m', 'd'] {
        PostProcess::Markdown
    } else if ext == seq!['h', 't', 'm', 'l'] {
        PostProcess::Html
    } else {
        PostProcess::Verbatim
    }
}

/// The extension of a file name, if it has one.
pub fn file_extension(name: &str) -> (r: Option<String>)
    ensures
        opt_chars(r) == extension_of(name@),
{
    let n = chars_of(name);
    if n.len() == 2 && n[0] == '.' && n[1] == '.' {
        assert(n@ =~= dot_dot());
        return None;
    }
    assert(n@ != dot_dot()) by {
        if n@ == dot_dot() {
            assert(n@[0] == '.' && n@[1] == '.');
        }
    }
    let mut i: usize = n.len();
    while i > 0
        invariant
            i <= n@.len(),
            n@ == name@,
            n@ != dot_dot(),
            forall|j: int| i <= j < n@.len() ==> n@[j] != '.',
        decreases i,
    {
        if n[i - 1] == '.' {
            let d: usize = i - 1;
            assert(is_last_dot(name@, d as int));
            assert forall|k: int| 0 < k && is_last_dot(name@, k) implies k == d by {
                if k < d {
                    assert(name@[d as int] == '.');
                }
            }
            if d == 0 {
                return None;
            }
            assert(0 < d && is_last_dot(name@, d as int));
            let ext = string_of(slice_chars(n.as_slice(), i, n.len()).as_slice());
            return Some(ext);
        }
        i = i - 1;
    }
    None
}

/// How a stored file is served, by its extension: `.md` and `.html` are
/// rendered, anything else goes out as stored. `None` when the name has no
/// extension, which makes the request fail.
pub fn postprocess_for(file_name: &str) -> (r: Option<PostProcess>)
    ensures
        r == match extension_of(file_name@) {
            Some(e) => Some(postprocess_of(e)),
            None => None,
        },
{
    match file_extension(file_name) {
        None => None,
        Some(e) => {
            let ec = chars_of(e.as_str());
            let md = chars_of("md");
            let html = chars_of("html");
            proof {
                reveal_strlit("md");
                reveal_strlit("html");
                assert(md@ =~= seq!['m', 'd']);
                assert(html@ =~= seq!['h', 't', 'm', 'l']);
            }
            if chars_equal(ec.as_slice(), md.as_slice()) {
                Some(PostProcess::Markdown)
            } else if chars_equal(ec.as_slice(), html.as_slice()) {
                Some(PostProcess::Html)
            } else {
                Some(PostProcess::Verbatim)
            }
        },
    }
}

/// A name handed out for an upload carries the upload's extension: reading
/// the extension back from `{base}.{ext}` gives `ext`, so the artifact is
/// served under the type it was uploaded as.
pub proof fn lemma_artifact_name_extension(base: Seq<char>, ext: Seq<char>)
    requires
        base_name_ok(base),
        valid_ext(ext),
    ensures
        extension_of(artifact_name(base, ext)) == Some(ext),
{
    let name = artifact_name(base, ext);
    let d = base.len() as int;
    assert(name[d] == '.');
    assert forall|j: int| d < j < name.len() implies name[j] != '.' by {
        assert(name[j] == ext[j - d - 1]);
        assert(crate::route::is_ascii_alnum(ext[j - d - 1]));
    }
    assert(is_last_dot(name, d));
    assert forall|k: int| 0 < k && is_last_dot(name, k) implies k == d by {
        if k < d {
            assert(name[d] == '.');
        }
    }
    assert(name != dot_dot()) by {
        assert(name.len() >= 3);
    }
    assert(name.subrange(d + 1, name.len() as int) =~= ext);
}

} // verus!
