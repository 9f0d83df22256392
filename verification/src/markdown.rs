//! A plain conversion of markup to Markdown that needs no converter:
//! headings and text blocks, one after the other.

use crate::bindings::select_text;
use crate::bindings::selected_text;
use crate::bindings::string_of;
use crate::text::char_is_whitespace;
use crate::text::chars_of;
use crate::text::is_whitespace;
use crate::text::scan;
use crate::text::scan_from;
use crate::webpage::WebPage;
use vstd::prelude::*;
use vstd::slice::*;

verus! {

/// `s` without the whitespace at its end.
pub open spec fn trim_end(s: Seq<char>) -> Seq<char>
    decreases s.len(),
{
    if s.len() > 0 && is_whitespace(s.last()) {
        trim_end(s.drop_last())
    } else {
        s
    }
}

/// `s` without the whitespace at its start.
pub open spec fn trim_start(s: Seq<char>) -> Seq<char> {
    s.skip(scan(s, 0, false))
}

/// `s` without the whitespace at its start and at its end.
pub open spec fn trimmed(s: Seq<char>) -> Seq<char> {
    trim_end(trim_start(s))
}

/// The pieces one after the other, with one space between neighbours.
pub open spec fn joined(pieces: Seq<Seq<char>>) -> Seq<char>
    decreases pieces.len(),
{
    if pieces.len() == 0 {
        Seq::empty()
    } else if pieces.len() == 1 {
        pieces[0]
    } else {
        joined(pieces.drop_last()) + seq![' '] + pieces.last()
    }
}

/// The level of the heading that `tag` names: 1 to 6 for `h1` to `h6`, and
/// 0 for a tag that names no heading.
pub open spec fn heading_level(tag: Seq<char>) -> nat {
    if tag.len() == 2 && tag[0] == 'h' && '1' <= tag[1] <= '6' {
        (tag[1] as u32 - '0' as u32) as nat
    } else {
        0
    }
}

/// What stands before the text of an element: as many `#` as the level of
/// its heading and a space; nothing for other elements.
pub open spec fn heading_prefix(tag: Seq<char>) -> Seq<char> {
    if heading_level(tag) == 0 {
        Seq::empty()
    } else {
        Seq::new(heading_level(tag), |i: int| '#') + seq![' ']
    }
}

/// The block of one element: its text nodes joined by spaces and trimmed,
/// behind its prefix and before an empty line. An element without text
/// has no block.
pub open spec fn block(tag: Seq<char>, pieces: Seq<Seq<char>>) -> Seq<char> {
    let text = trimmed(joined(pieces));
    if text.len() == 0 {
        Seq::empty()
    } else {
        heading_prefix(tag) + text + seq!['\n', '\n']
    }
}

/// The blocks of `elements`, in order.
pub open spec fn blocks(elements: Seq<(Seq<char>, Seq<Seq<char>>)>) -> Seq<char>
    decreases elements.len(),
{
    if elements.len() == 0 {
        Seq::empty()
    } else {
        blocks(elements.drop_last()) + block(elements.last().0, elements.last().1)
    }
}

/// `s` with every run of three line feeds, taken from the left, made two.
pub open spec fn collapse(s: Seq<char>) -> Seq<char>
    decreases s.len(),
{
    if s.len() >= 3 && s[0] == '\n' && s[1] == '\n' && s[2] == '\n' {
        seq!['\n', '\n'] + collapse(s.skip(3))
    } else if s.len() > 0 {
        seq![s[0]] + collapse(s.skip(1))
    } else {
        Seq::empty()
    }
}

/// The Markdown of `elements`: their blocks, trimmed as a whole, with
/// triple line feeds collapsed.
pub open spec fn simple_markdown(elements: Seq<(Seq<char>, Seq<Seq<char>>)>) -> Seq<char> {
    collapse(trimmed(blocks(elements)))
}

/// The elements of the fragment `html` that `selector` matches, with
/// their text.
pub open spec fn text_elements(html: Seq<char>, selector: Seq<char>) -> Seq<
    (Seq<char>, Seq<Seq<char>>),
> {
    match selected_text(html, selector) {
        Some(elements) => elements,
        None => Seq::empty(),
    }
}

/// Where `s` begins and ends once it is trimmed.
pub fn trim_bounds(s: &[char]) -> (r: (usize, usize))
    ensures
        r.0 <= r.1 <= s.len(),
        trimmed(s@) == s@.subrange(r.0 as int, r.1 as int),
{
    let start = scan_from(s, 0, false);
    let mut end: usize = s.len();
    assert(s@.skip(start as int) =~= s@.subrange(start as int, end as int));
    while end > start && char_is_whitespace(s[end - 1])
        invariant
            start <= end <= s.len(),
            trimmed(s@) == trim_end(s@.subrange(start as int, end as int)),
        decreases end,
    {
        assert(s@.subrange(start as int, end as int).drop_last() =~= s@.subrange(
            start as int,
            end - 1,
        ));
        end -= 1;
    }
    (start, end)
}

/// Joins text nodes by single spaces.
pub fn join_pieces(pieces: &Vec<String>) -> (r: Vec<char>)
    ensures
        r@ == joined(pieces.deep_view()),
{
    let ghost all = pieces.deep_view();
    let mut out: Vec<char> = Vec::new();
    let mut i: usize = 0;
    while i < pieces.len()
        invariant
            i <= pieces.len(),
            all == pieces.deep_view(),
            out@ == joined(all.take(i as int)),
        decreases pieces.len() - i,
    {
        let mut piece = chars_of(pieces[i].as_str());
        proof {
            let upto = all.take(i + 1);
            assert(upto.last() == piece@);
            assert(upto.drop_last() =~= all.take(i as int));
            if i == 0 {
                assert(upto[0] == piece@);
            }
        }
        if i > 0 {
            out.push(' ');
        }
        out.append(&mut piece);
        i += 1;
    }
    assert(all.take(i as int) =~= all);
    out
}

/// The level of the heading that `tag` names.
pub fn level_of(tag: &str) -> (r: usize)
    ensures
        r == heading_level(tag@),
        r <= 6,
{
    let t = chars_of(tag);
    if t.len() == 2 && t[0] == 'h' && '1' <= t[1] && t[1] <= '6' {
        (t[1] as u32 - '0' as u32) as usize
    } else {
        0
    }
}

/// Renders elements, given by tag name and text nodes, as Markdown.
pub fn render(elements: &Vec<(String, Vec<String>)>) -> (r: String)
    ensures
        r@ == simple_markdown(elements.deep_view()),
{
    let ghost all = elements.deep_view();
    let mut out: Vec<char> = Vec::new();
    let mut i: usize = 0;
    while i < elements.len()
        invariant
            i <= elements.len(),
            all == elements.deep_view(),
            out@ == blocks(all.take(i as int)),
        decreases elements.len() - i,
    {
        let element: &(String, Vec<String>) = &elements[i];
        let text = join_pieces(&element.1);
        let (from, to) = trim_bounds(text.as_slice());
        proof {
            let upto = all.take(i + 1);
            assert(upto.last() == (element.0@, element.1.deep_view()));
            assert(upto.drop_last() =~= all.take(i as int));
        }
        if from < to {
            let ghost before = out@;
            let level = level_of(element.0.as_str());
            if level > 0 {
                let mut k: usize = 0;
                while k < level
                    invariant
                        k <= level,
                        out@ == before + Seq::new(k as nat, |i: int| '#'),
                    decreases level - k,
                {
                    out.push('#');
                    k += 1;
                }
                out.push(' ');
                assert(out@ =~= before + heading_prefix(element.0@));
            } else {
                assert(out@ =~= before + heading_prefix(element.0@));
            }
            let ghost headed = out@;
            let mut k: usize = from;
            while k < to
                invariant
                    from <= k <= to <= text.len(),
                    out@ == headed + text@.subrange(from as int, k as int),
                decreases to - k,
            {
                out.push(text[k]);
                k += 1;
            }
            out.push('\n');
            out.push('\n');
            assert(out@ =~= before + block(element.0@, element.1.deep_view()));
        } else {
            assert(out@ =~= out@ + block(element.0@, element.1.deep_view()));
        }
        i += 1;
    }
    assert(all.take(i as int) =~= all);
    let (from, to) = trim_bounds(out.as_slice());
    let body = slice_subrange(out.as_slice(), from, to);
    let mut collapsed: Vec<char> = Vec::new();
    let n: usize = body.len();
    let mut k: usize = 0;
    assert(body@.skip(0) =~= body@);
    while k < n
        invariant
            k <= n,
            n == body@.len(),
            collapse(body@) == collapsed@ + collapse(body@.skip(k as int)),
        decreases n - k,
    {
        let ghost rest = body@.skip(k as int);
        if n - k >= 3 && body[k] == '\n' && body[k + 1] == '\n' && body[k + 2] == '\n' {
            assert(rest.skip(3) =~= body@.skip(k + 3));
            collapsed.push('\n');
            collapsed.push('\n');
            k += 3;
        } else {
            assert(rest.skip(1) =~= body@.skip(k + 1));
            collapsed.push(body[k]);
            k += 1;
        }
    }
    string_of(collapsed.as_slice())
}

impl WebPage {
    /// Converts the markup `html` to plain Markdown: the headings of the
    /// page first, then its text blocks, each with the text it holds.
    pub fn html_to_simple_markdown(html: &str) -> (r: String)
        ensures
            r@ == simple_markdown(
                text_elements(html@, "h1, h2, h3, h4, h5, h6"@) + text_elements(
                    html@,
                    "p, div, span, article, section, main"@,
                ),
            ),
    {
        let mut elements = match select_text(html, "h1, h2, h3, h4, h5, h6") {
            Some(found) => found,
            None => Vec::new(),
        };
        let mut texts = match select_text(html, "p, div, span, article, section, main") {
            Some(found) => found,
            None => Vec::new(),
        };
        let ghost first = elements.deep_view();
        let ghost second = texts.deep_view();
        assert(first =~= text_elements(html@, "h1, h2, h3, h4, h5, h6"@));
        assert(second =~= text_elements(html@, "p, div, span, article, section, main"@));
        elements.append(&mut texts);
        assert(elements.deep_view() =~= first + second);
        render(&elements)
    }
}

} // verus!
