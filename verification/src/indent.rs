//! Finding the indentation unit that a settings file already uses.

use crate::text::{char_is_whitespace, chars_of, is_whitespace, string_of};
use vstd::prelude::*;
use vstd::slice::slice_subrange;

verus! {

/// Whether a line of `text` begins at position `p`: at the very start, or
/// right behind a line feed.
pub open spec fn is_line_start(text: Seq<char>, p: int) -> bool {
    0 <= p < text.len() && (p == 0 || text[p - 1] == '\n')
}

/// Whether the line that begins at `p` opens with a space or a tab.
pub open spec fn is_indented_line(text: Seq<char>, p: int) -> bool {
    is_line_start(text, p) && (text[p] == ' ' || text[p] == '\t')
}

/// Whether `p` begins the first line of `text` that opens with a space or a
/// tab.
pub open spec fn is_first_indented_line(text: Seq<char>, p: int) -> bool {
    is_indented_line(text, p) && forall|q: int| 0 <= q < p ==> !is_indented_line(text, q)
}

/// Whether the character at `q` still belongs to the white space that opens
/// its line: it is white space, not the line feed, and not the carriage
/// return of a `\r\n` line ending.
pub open spec fn is_indent_char(text: Seq<char>, q: int) -> bool {
    &&& 0 <= q < text.len()
    &&& is_whitespace(text[q])
    &&& text[q] != '\n'
    &&& !(text[q] == '\r' && q + 1 < text.len() && text[q + 1] == '\n')
}

/// Whether the white space that opens the line at `p` ends just before `e`.
pub open spec fn is_indent_end(text: Seq<char>, p: int, e: int) -> bool {
    &&& p <= e <= text.len()
    &&& forall|q: int| p <= q < e ==> is_indent_char(text, q)
    &&& !is_indent_char(text, e)
}

/// The indentation that `text` uses: the white space that opens its first
/// line beginning with a space or a tab, and two spaces where no line does.
pub open spec fn indentation_of(text: Seq<char>) -> Seq<char> {
    if exists|p: int| is_first_indented_line(text, p) {
        let p = choose|p: int| is_first_indented_line(text, p);
        let e = choose|e: int| is_indent_end(text, p, e);
        text.subrange(p, e)
    } else {
        seq![' ', ' ']
    }
}

/// The indentation unit of `content`: the leading white space of its first
/// indented line, or two spaces.
pub fn detect_indentation(content: &str) -> (indent: String)
    ensures
        indent@ == indentation_of(content@),
{
    let chars = chars_of(content);
    let n = chars.len();
    let mut p: usize = 0;
    while p < n
        invariant
            n == chars@.len(),
            chars@ == content@,
            0 <= p <= n,
            forall|q: int| 0 <= q < p ==> !is_indented_line(chars@, q),
        decreases n - p,
    {
        let at_start = p == 0 || chars[p - 1] == '\n';
        if at_start && (chars[p] == ' ' || chars[p] == '\t') {
            let mut e: usize = p;
            while e < n && char_is_whitespace(chars[e]) && chars[e] != '\n' && !(chars[e] == '\r'
                && e + 1 < n && chars[e + 1] == '\n')
                invariant
                    n == chars@.len(),
                    p <= e <= n,
                    forall|q: int| p <= q < e ==> is_indent_char(chars@, q),
                decreases n - e,
            {
                e = e + 1;
            }
            proof {
                lemma_indentation(chars@, p as int, e as int);
            }
            return string_of(slice_subrange(chars.as_slice(), p, e));
        }
        p = p + 1;
    }
    let mut indent: Vec<char> = Vec::new();
    indent.push(' ');
    indent.push(' ');
    string_of(indent.as_slice())
}

/// The first indented line and the end of its white space are each unique.
proof fn lemma_indentation(text: Seq<char>, p: int, e: int)
    requires
        is_first_indented_line(text, p),
        is_indent_end(text, p, e),
    ensures
        indentation_of(text) == text.subrange(p, e),
{
    let p2 = choose|p2: int| is_first_indented_line(text, p2);
    let e2 = choose|e2: int| is_indent_end(text, p, e2);
}

} // verus!
