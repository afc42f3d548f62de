//! Turning stored Markdown and HTML artifacts into themed HTML pages.
use vstd::prelude::*;

use crate::markdown::{markdown_description, markdown_title, markdown_title_and_description};
use crate::text::{append_chars, append_str, chars_of, contains_chars, occurs_at, occurs_in, replace_all, replaced, string_of};

verus! {

pub const MD_PAGE_TOP: &'static str = "<!DOCTYPE html>\n<html lang=\"en\">\n<head>\n<meta charset=\"utf-8\">\n<meta name=\"viewport\" content=\"width=device-width, initial-scale=1\">\n<title>";

pub const MD_PAGE_DESCRIPTION: &'static str = "</title>\n<meta name=\"description\" content=\"";

pub const MD_PAGE_BODY: &'static str = "\">\n<style>body{background-color:#121212;color:#e0e0e0;font-family:sans-serif;max-width:52em;margin:2em auto;padding:0 1em}pre{white-space:pre-wrap}</style>\n</head>\n<body>\n<pre id=\"markdown\">";

pub const MD_PAGE_END: &'static str = "</pre>\n</body>\n</html>\n";

pub const HEAD_TOP: &'static str = "\n<meta charset=\"utf-8\">\n<meta name=\"viewport\" content=\"width=device-width, initial-scale=1\">\n<title>";

pub const HEAD_STYLE: &'static str = "</title>\n<meta name=\"description\" content=\"\">\n<style>body{background-color:";

pub const HEAD_END: &'static str = ";color:#e0e0e0;font-family: 'Hack Nerd Font', 'Hack', monospace}</style>\n";

/// Page background when the document is wrapped in a shell of our own.
pub const SHELL_BACKGROUND: &'static str = "rgb(31, 31, 31)";

/// Page background when the stylesheet goes into the document's own head.
pub const DARK_BACKGROUND: &'static str = "#121212";

pub const SHELL_TOP: &'static str = "<!DOCTYPE html>\n<html>\n<head>";

pub const SHELL_BODY: &'static str = "</head>\n<body>\n<pre>";

pub const SHELL_END: &'static str = "</pre>\n</body>\n</html>\n";

pub const HTML_OPEN: &'static str = "<html";

pub const HEAD_OPEN: &'static str = "<head>";

pub const LIGHT_BACKGROUND_RULE: &'static str = "background-color:#ffffff;";

pub const DARK_BACKGROUND_RULE: &'static str = "background-color:#121212;";

pub const LIGHT_TEXT_RULE: &'static str = "color:#000000;";

pub const DARK_TEXT_RULE: &'static str = "color:#ffffff;";

pub const PLAIN_MONOSPACE: &'static str = "font-family:monospace";

pub const THEMED_MONOSPACE: &'static str = "font-family: 'Hack Nerd Font', 'Hack', monospace";

/// The Markdown page for a title, a description and the raw document.
pub open spec fn markdown_page(title: Seq<char>, description: Seq<char>, contents: Seq<char>) -> Seq<char> {
    MD_PAGE_TOP@ + title + MD_PAGE_DESCRIPTION@ + description + MD_PAGE_BODY@ + contents + MD_PAGE_END@
}

/// The page served for a stored Markdown document.
pub open spec fn markdown_html(file_name: Seq<char>, contents: Seq<char>) -> Seq<char> {
    markdown_page(markdown_title(file_name, contents), markdown_description(contents), contents)
}

/// The themed stylesheet fragment that goes into a page head.
pub open spec fn head_fragment(title: Seq<char>, background: Seq<char>) -> Seq<char> {
    HEAD_TOP@ + title + HEAD_STYLE@ + background + HEAD_END@
}

/// A document that already has its own `<html` and `<head>`.
pub open spec fn is_full_document(contents: Seq<char>) -> bool {
    occurs_in(contents, HTML_OPEN@) && occurs_in(contents, HEAD_OPEN@)
}

/// The page served for a stored HTML document: the stylesheet injected into its
/// own head and its light colors turned dark, or the document wrapped in a shell.
pub open spec fn html_page(file_name: Seq<char>, contents: Seq<char>) -> Seq<char> {
    if is_full_document(contents) {
        let head = HEAD_OPEN@ + head_fragment(file_name, DARK_BACKGROUND@);
        replaced(
            replaced(
                replaced(replaced(contents, HEAD_OPEN@, head), LIGHT_BACKGROUND_RULE@, DARK_BACKGROUND_RULE@),
                LIGHT_TEXT_RULE@,
                DARK_TEXT_RULE@,
            ),
            PLAIN_MONOSPACE@,
            THEMED_MONOSPACE@,
        )
    } else {
        SHELL_TOP@ + head_fragment(file_name, SHELL_BACKGROUND@) + SHELL_BODY@ + contents + SHELL_END@
    }
}

/// The page for a stored Markdown document: its title, its description and
/// the raw document in a themed HTML page.
pub fn render_markdown(file_name: &str, contents: &str) -> (r: String)
    ensures
        r@ == markdown_html(file_name@, contents@),
{
    let (title, description) = markdown_title_and_description(file_name, contents);
    let mut out: Vec<char> = Vec::new();
    append_str(&mut out, MD_PAGE_TOP);
    append_str(&mut out, title.as_str());
    append_str(&mut out, MD_PAGE_DESCRIPTION);
    append_str(&mut out, description.as_str());
    append_str(&mut out, MD_PAGE_BODY);
    append_str(&mut out, contents);
    append_str(&mut out, MD_PAGE_END);
    string_of(out.as_slice())
}

fn head_fragment_chars(title: &str, background: &str) -> (r: Vec<char>)
    ensures
        r@ == head_fragment(title@, background@),
{
    let mut out: Vec<char> = Vec::new();
    append_str(&mut out, HEAD_TOP);
    append_str(&mut out, title);
    append_str(&mut out, HEAD_STYLE);
    append_str(&mut out, background);
    append_str(&mut out, HEAD_END);
    out
}

proof fn lemma_rules_nonempty()
    ensures
        HEAD_OPEN@.len() > 0,
        LIGHT_BACKGROUND_RULE@.len() > 0,
        LIGHT_TEXT_RULE@.len() > 0,
        PLAIN_MONOSPACE@.len() > 0,
{
    reveal_strlit("<head>");
    reveal_strlit("background-color:#ffffff;");
    reveal_strlit("color:#000000;");
    reveal_strlit("font-family:monospace");
}

/// The page for a stored HTML document: when it has its own `<html` and
/// `<head>`, the themed stylesheet goes into that head and the known light
/// colors become dark; otherwise the document is wrapped in a themed shell.
pub fn render_html(file_name: &str, contents: &str) -> (r: String)
    ensures
        r@ == html_page(file_name@, contents@),
{
    let c = chars_of(contents);
    let html_open = chars_of(HTML_OPEN);
    let head_open = chars_of(HEAD_OPEN);
    proof {
        lemma_rules_nonempty();
    }
    if contains_chars(c.as_slice(), html_open.as_slice()) && contains_chars(c.as_slice(), head_open.as_slice()) {
        let mut head: Vec<char> = Vec::new();
        append_chars(&mut head, head_open.as_slice());
        let fragment = head_fragment_chars(file_name, DARK_BACKGROUND);
        append_chars(&mut head, fragment.as_slice());
        let step1 = replace_all(c.as_slice(), head_open.as_slice(), head.as_slice());
        let light_bg = chars_of(LIGHT_BACKGROUND_RULE);
        let dark_bg = chars_of(DARK_BACKGROUND_RULE);
        let step2 = replace_all(step1.as_slice(), light_bg.as_slice(), dark_bg.as_slice());
        let light_text = chars_of(LIGHT_TEXT_RULE);
        let dark_text = chars_of(DARK_TEXT_RULE);
        let step3 = replace_all(step2.as_slice(), light_text.as_slice(), dark_text.as_slice());
        let plain = chars_of(PLAIN_MONOSPACE);
        let themed = chars_of(THEMED_MONOSPACE);
        let step4 = replace_all(step3.as_slice(), plain.as_slice(), themed.as_slice());
        string_of(step4.as_slice())
    } else {
        let mut out: Vec<char> = Vec::new();
        append_str(&mut out, SHELL_TOP);
        let fragment = head_fragment_chars(file_name, SHELL_BACKGROUND);
        append_chars(&mut out, fragment.as_slice());
        append_str(&mut out, SHELL_BODY);
        append_chars(&mut out, c.as_slice());
        append_str(&mut out, SHELL_END);
        string_of(out.as_slice())
    }
}

/// The page for a Markdown document carries the title right after the opening
/// `<title>`: the first `# ` heading when there is one, else the file name.
pub proof fn lemma_markdown_title_rendered(file_name: Seq<char>, contents: Seq<char>)
    ensures
        occurs_at(markdown_html(file_name, contents), markdown_title(file_name, contents), MD_PAGE_TOP@.len() as int),
        !crate::markdown::has_heading(crate::markdown::text_lines(contents))
            ==> markdown_title(file_name, contents) == file_name,
        crate::markdown::has_heading(crate::markdown::text_lines(contents)) ==> ({
            let lines = crate::markdown::text_lines(contents);
            exists|i: int| crate::markdown::heading_at(lines, i)
                && markdown_title(file_name, contents) == crate::markdown::strip_heading(#[trigger] lines[i])
        }),
{
    let t = markdown_title(file_name, contents);
    let page = markdown_html(file_name, contents);
    let n = MD_PAGE_TOP@.len() as int;
    assert(page.subrange(n, n + t.len()) =~= t);
    let lines = crate::markdown::text_lines(contents);
    if crate::markdown::has_heading(lines) {
        let i = crate::markdown::heading_index(lines);
        assert(crate::markdown::heading_at(lines, i));
    }
}

} // verus!
