//! Title and description of a stored Markdown document.
use vstd::prelude::*;

use crate::text::{append_chars, chars_of, has_prefix, slice_chars, string_of};

verus! {

/// How many lines a description holds at most.
pub const DESCRIPTION_LINES: usize = 10;

/// Unicode `White_Space`, as `char::is_whitespace` and `str::trim` use it.
pub open spec fn is_white_space(c: char) -> bool {
    let u = c as u32;
    (0x9 <= u && u <= 0xd) || u == 0x20 || u == 0x85 || u == 0xa0 || u == 0x1680
        || (0x2000 <= u && u <= 0x200a) || u == 0x2028 || u == 0x2029 || u == 0x202f
        || u == 0x205f || u == 0x3000
}

pub open spec fn is_blank(line: Seq<char>) -> bool {
    forall|i: int| 0 <= i < line.len() ==> is_white_space(#[trigger] line[i])
}

pub open spec fn image_marker() -> Seq<char> {
    seq!['!', '[']
}

pub open spec fn heading_marker() -> Seq<char> {
    seq!['#', ' ']
}

/// A line that may stand in a description: not blank, not an image embed.
pub open spec fn describes(line: Seq<char>) -> bool {
    !is_blank(line) && !has_prefix(line, image_marker())
}

/// The lines that may stand in a description, in order.
pub open spec fn describing_lines(lines: Seq<Seq<char>>) -> Seq<Seq<char>>
    decreases lines.len(),
{
    if lines.len() == 0 {
        Seq::empty()
    } else {
        let k = describing_lines(lines.drop_last());
        if describes(lines.last()) {
            k.push(lines.last())
        } else {
            k
        }
    }
}

/// The parts joined with a newline between each two.
pub open spec fn join_lines(parts: Seq<Seq<char>>) -> Seq<char>
    decreases parts.len(),
{
    if parts.len() == 0 {
        Seq::empty()
    } else if parts.len() == 1 {
        parts[0]
    } else {
        join_lines(parts.drop_last()) + seq!['\n'] + parts.last()
    }
}

/// The first lines, at most ten, that are neither blank nor image embeds,
/// joined by newlines.
pub open spec fn description_of(lines: Seq<Seq<char>>) -> Seq<char> {
    let d = describing_lines(lines);
    join_lines(if d.len() > DESCRIPTION_LINES { d.subrange(0, DESCRIPTION_LINES as int) } else { d })
}

/// A line without its ending `\r`, if it has one.
pub open spec fn strip_cr(line: Seq<char>) -> Seq<char> {
    if line.len() > 0 && line.last() == '\r' {
        line.drop_last()
    } else {
        line
    }
}

/// Reading `s` left to right: the lines finished so far and the line under way.
pub open spec fn line_state(s: Seq<char>) -> (Seq<Seq<char>>, Seq<char>)
    decreases s.len(),
{
    if s.len() == 0 {
        (Seq::empty(), Seq::empty())
    } else {
        let (done, cur) = line_state(s.drop_last());
        if s.last() == '\n' {
            (done.push(strip_cr(cur)), Seq::empty())
        } else {
            (done, cur.push(s.last()))
        }
    }
}

/// The lines of a text: split at `\n`, a `\r` before it dropped, and no empty
/// line after a final `\n`.
pub open spec fn text_lines(s: Seq<char>) -> Seq<Seq<char>> {
    let (done, cur) = line_state(s);
    if cur.len() == 0 {
        done
    } else {
        done.push(cur)
    }
}

/// The text after a leading `# ` marker; a line without one stays as it is.
pub open spec fn strip_heading(line: Seq<char>) -> Seq<char> {
    if has_prefix(line, heading_marker()) {
        line.subrange(2, line.len() as int)
    } else {
        line
    }
}

/// Line `i` is the first one that starts with `# `.
pub open spec fn heading_at(lines: Seq<Seq<char>>, i: int) -> bool {
    0 <= i < lines.len() && has_prefix(lines[i], heading_marker())
        && forall|j: int| 0 <= j < i ==> !has_prefix(#[trigger] lines[j], heading_marker())
}

pub open spec fn has_heading(lines: Seq<Seq<char>>) -> bool {
    exists|i: int| heading_at(lines, i)
}

pub open spec fn heading_index(lines: Seq<Seq<char>>) -> int {
    choose|i: int| heading_at(lines, i)
}

/// Title of a Markdown document: its first `# ` heading without the marker,
/// else the file name.
pub open spec fn markdown_title(file_name: Seq<char>, contents: Seq<char>) -> Seq<char> {
    let lines = text_lines(contents);
    if has_heading(lines) {
        strip_heading(lines[heading_index(lines)])
    } else {
        file_name
    }
}

/// Description of a Markdown document, taken from the lines after its first
/// heading, or from all lines when it has none.
pub open spec fn markdown_description(contents: Seq<char>) -> Seq<char> {
    let lines = text_lines(contents);
    if has_heading(lines) {
        description_of(lines.subrange(heading_index(lines) + 1, lines.len() as int))
    } else {
        description_of(lines)
    }
}

pub fn is_white_space_char(c: char) -> (r: bool)
    ensures
        r == is_white_space(c),
{
    let u = c as u32;
    (0x9 <= u && u <= 0xd) || u == 0x20 || u == 0x85 || u == 0xa0 || u == 0x1680
        || (0x2000 <= u && u <= 0x200a) || u == 0x2028 || u == 0x2029 || u == 0x202f
        || u == 0x205f || u == 0x3000
}

fn blank(line: &[char]) -> (r: bool)
    ensures
        r == is_blank(line@),
{
    let mut i: usize = 0;
    while i < line.len()
        invariant
            i <= line@.len(),
            forall|k: int| 0 <= k < i ==> is_white_space(#[trigger] line@[k]),
        decreases line.len() - i,
    {
        if !is_white_space_char(line[i]) {
            return false;
        }
        i = i + 1;
    }
    true
}

fn starts_with_pair(line: &[char], a: char, b: char) -> (r: bool)
    ensures
        r == has_prefix(line@, seq![a, b]),
{
    if line.len() < 2 {
        return false;
    }
    let r = line[0] == a && line[1] == b;
    if r {
        assert(line@.subrange(0, 2) =~= seq![a, b]);
    } else {
        assert(line@.subrange(0, 2)[0] == line@[0]);
        assert(line@.subrange(0, 2)[1] == line@[1]);
    }
    r
}

/// Whether a line may stand in a description.
pub fn is_describing(line: &str) -> (r: bool)
    ensures
        r == describes(line@),
{
    let l = chars_of(line);
    !blank(l.as_slice()) && !starts_with_pair(l.as_slice(), '!', '[')
}

proof fn lemma_describing_prefix(lines: Seq<Seq<char>>, j: int, i: int)
    requires
        0 <= j <= i <= lines.len(),
    ensures
        describing_lines(lines.subrange(0, j)).len() <= describing_lines(lines.subrange(0, i)).len(),
        describing_lines(lines.subrange(0, j)) == describing_lines(lines.subrange(0, i)).subrange(
            0,
            describing_lines(lines.subrange(0, j)).len() as int,
        ),
    decreases i - j,
{
    if j < i {
        lemma_describing_prefix(lines, j, i - 1);
        assert(lines.subrange(0, i).drop_last() =~= lines.subrange(0, i - 1));
    } else {
        let d = describing_lines(lines.subrange(0, j));
        assert(d.subrange(0, d.len() as int) =~= d);
    }
}

/// The description of a document made of `lines`: the first lines, at most
/// ten, that are neither blank nor image embeds, joined by newlines.
pub fn find_description(lines: &Vec<String>) -> (r: String)
    ensures
        r@ == description_of(lines.deep_view()),
{
    let ghost all = lines.deep_view();
    let mut out: Vec<char> = Vec::new();
    let mut count: usize = 0;
    let mut i: usize = 0;
    while i < lines.len() && count < DESCRIPTION_LINES
        invariant
            i <= lines@.len(),
            all == lines.deep_view(),
            all.len() == lines@.len(),
            count == describing_lines(all.subrange(0, i as int)).len(),
            count <= DESCRIPTION_LINES,
            out@ == join_lines(describing_lines(all.subrange(0, i as int))),
        decreases lines.len() - i,
    {
        let ghost prev = describing_lines(all.subrange(0, i as int));
        assert(all.subrange(0, i + 1).drop_last() =~= all.subrange(0, i as int));
        assert(all.subrange(0, i + 1).last() == all[i as int]);
        if is_describing(lines[i].as_str()) {
            let ghost next = prev.push(all[i as int]);
            assert(next.drop_last() =~= prev);
            if count > 0 {
                out.push('\n');
            } else {
                assert(prev.len() == 0);
            }
            let l = chars_of(lines[i].as_str());
            append_chars(&mut out, l.as_slice());
            proof {
                if count > 0 {
                    assert(out@ =~= join_lines(prev) + seq!['\n'] + all[i as int]);
                } else {
                    assert(out@ =~= all[i as int]);
                }
            }
            count = count + 1;
        }
        i = i + 1;
    }
    proof {
        let d = describing_lines(all);
        assert(all.subrange(0, all.len() as int) =~= all);
        lemma_describing_prefix(all, i as int, all.len() as int);
        let di = describing_lines(all.subrange(0, i as int));
        if count == DESCRIPTION_LINES {
            assert(d.len() >= DESCRIPTION_LINES);
            if d.len() == DESCRIPTION_LINES {
                assert(d.subrange(0, DESCRIPTION_LINES as int) =~= d);
            }
            assert(di == d.subrange(0, DESCRIPTION_LINES as int));
        } else {
            assert(i == all.len());
        }
    }
    string_of(out.as_slice())
}

/// The lines of `text`: split at `\n`, a `\r` before it dropped, and no empty
/// line after a final `\n`.
pub fn split_lines(text: &str) -> (r: Vec<String>)
    ensures
        r.deep_view() == text_lines(text@),
{
    let t = chars_of(text);
    let mut done: Vec<String> = Vec::new();
    let mut cur: Vec<char> = Vec::new();
    let mut i: usize = 0;
    while i < t.len()
        invariant
            i <= t@.len(),
            t@ == text@,
            (done.deep_view(), cur@) == line_state(t@.subrange(0, i as int)),
        decreases t.len() - i,
    {
        let c = t[i];
        assert(t@.subrange(0, i + 1).drop_last() =~= t@.subrange(0, i as int));
        assert(t@.subrange(0, i + 1).last() == c);
        if c == '\n' {
            let n = cur.len();
            let line = if n > 0 && cur[n - 1] == '\r' {
                assert(cur@.subrange(0, n - 1) =~= cur@.drop_last());
                string_of(slice_chars(cur.as_slice(), 0, n - 1).as_slice())
            } else {
                string_of(cur.as_slice())
            };
            let ghost before = done.deep_view();
            done.push(line);
            assert(done.deep_view() =~= before.push(line@));
            cur = Vec::new();
            assert(cur@ =~= Seq::<char>::empty());
        } else {
            cur.push(c);
        }
        i = i + 1;
    }
    assert(t@.subrange(0, t@.len() as int) =~= t@);
    if cur.len() > 0 {
        let ghost before = done.deep_view();
        let last = string_of(cur.as_slice());
        done.push(last);
        assert(done.deep_view() =~= before.push(cur@));
    }
    done
}

/// `line` without its leading `# ` marker, if it has one.
pub fn strip_heading_marker(line: &str) -> (r: String)
    ensures
        r@ == strip_heading(line@),
{
    let l = chars_of(line);
    if starts_with_pair(l.as_slice(), '#', ' ') {
        string_of(slice_chars(l.as_slice(), 2, l.len()).as_slice())
    } else {
        string_of(l.as_slice())
    }
}

/// The title and the description of a Markdown document: the first line that
/// starts with `# `, without that marker, and the description of the lines after
/// it; or, when no line does, the file name and the description of all lines.
pub fn markdown_title_and_description(file_name: &str, contents: &str) -> (r: (String, String))
    ensures
        r.0@ == markdown_title(file_name@, contents@),
        r.1@ == markdown_description(contents@),
{
    let lines = split_lines(contents);
    let ghost all = lines.deep_view();
    let mut i: usize = 0;
    while i < lines.len()
        invariant
            i <= lines@.len(),
            all == lines.deep_view(),
            all == text_lines(contents@),
            forall|j: int| 0 <= j < i ==> !has_prefix(#[trigger] all[j], heading_marker()),
        decreases lines.len() - i,
    {
        let l = chars_of(lines[i].as_str());
        if starts_with_pair(l.as_slice(), '#', ' ') {
            assert(heading_at(all, i as int));
            assert forall|k: int| heading_at(all, k) implies k == i by {
                if k < i {
                } else if k > i {
                    assert(!has_prefix(all[i as int], heading_marker()));
                }
            }
            let title = strip_heading_marker(lines[i].as_str());
            let mut rest: Vec<String> = Vec::new();
            let mut j: usize = i + 1;
            while j < lines.len()
                invariant
                    i < j <= lines@.len(),
                    all == lines.deep_view(),
                    rest.deep_view() == all.subrange(i + 1, j as int),
                decreases lines.len() - j,
            {
                let ghost before = rest.deep_view();
                let line = lines[j].clone();
                assert(line@ == all[j as int]);
                rest.push(line);
                assert(rest.deep_view() =~= before.push(line@));
                assert(rest.deep_view() =~= all.subrange(i + 1, j + 1));
                j = j + 1;
            }
            let description = find_description(&rest);
            return (title, description);
        }
        i = i + 1;
    }
    assert(!has_heading(all));
    (string_of(chars_of(file_name).as_slice()), find_description(&lines))
}

} // verus!
