use vstd::prelude::*;
use crate::source::Span;
use crate::text::{chars_of, concat_str, concat_strings, decimal, push_char, string_from_range, usize_to_string};

verus! {

/// A problem found in source text, with a stable code and a readable message.
#[derive(Debug)]
pub struct Diagnostic {
    pub code: String,
    pub message: String,
    pub span: Span,
}

impl Diagnostic {
    pub fn error(code: &str, message: String, span: Span) -> (d: Diagnostic)
        ensures
            d.code@ == code@,
            d.message@ == message@,
            d.span == span,
    {
        Diagnostic { code: String::from_str(code), message, span }
    }
}

/// Where the line that starts at `i` ends: the index of the first `'\n'` at
/// or after `i`, or the length of `s` when there is none.
pub open spec fn line_end(s: Seq<char>, i: int) -> int
    decreases s.len() - i,
{
    if i < 0 || i >= s.len() {
        s.len() as int
    } else if s[i] == '\n' {
        i
    } else {
        line_end(s, i + 1)
    }
}

pub proof fn lemma_line_end_bounds(s: Seq<char>, i: int)
    requires
        0 <= i,
    ensures
        i <= line_end(s, i) || i > s.len(),
        line_end(s, i) <= s.len(),
        line_end(s, i) < s.len() ==> s[line_end(s, i)] == '\n',
        forall|j: int| i <= j < line_end(s, i) ==> s[j] != '\n',
    decreases s.len() - i,
{
    if i < s.len() && s[i] != '\n' {
        lemma_line_end_bounds(s, i + 1);
    }
}

/// The text of the line `s[start..end]`, where `end` is where it ends: a
/// `'\r'` just before a `'\n'` belongs to the line break, not to the line.
pub open spec fn line_text(s: Seq<char>, start: int, end: int) -> Seq<char> {
    if end < s.len() && start < end && s[end - 1] == '\r' {
        s.subrange(start, end - 1)
    } else {
        s.subrange(start, end)
    }
}

/// The `k`-th line (from 0) of `s[i..]`, with the line breaks `"\n"` and
/// `"\r\n"`; a final line break does not open another line, and an empty
/// text has no lines.
pub open spec fn nth_line_from(s: Seq<char>, i: int, k: nat) -> Option<Seq<char>>
    decreases s.len() - i,
{
    if i < 0 || i >= s.len() {
        None
    } else {
        let e = line_end(s, i);
        if k == 0 {
            Some(line_text(s, i, e))
        } else if e >= s.len() {
            None
        } else {
            proof {
                lemma_line_end_bounds(s, i);
            }
            nth_line_from(s, e + 1, (k - 1) as nat)
        }
    }
}

/// A diagnostic as a reader sees it: `path:line:column: error[code]:
/// message`, and on a second line, after `"  | "`, the source line that it
/// points at (line 0 is read as line 1), when the source has that line.
pub open spec fn rendered_diagnostic(path: Seq<char>, source: Seq<char>, d: Diagnostic) -> Seq<char> {
    let line = d.span.start_pos.line;
    let head = path + seq![':'] + decimal(line as nat) + seq![':']
        + decimal(d.span.start_pos.column as nat) + ": error["@ + d.code@ + "]: "@ + d.message@;
    let index: nat = if line == 0 { 0 } else { (line - 1) as nat };
    match nth_line_from(source, 0, index) {
        Some(text) => head + "\n  | "@ + text,
        None => head,
    }
}

/// The `k`-th line of `chars`, as `str::lines` gives it.
fn source_line(chars: &Vec<char>, k: usize) -> (r: Option<String>)
    ensures
        match nth_line_from(chars@, 0, k as nat) {
            Some(t) => r is Some && r->0@ == t,
            None => r is None,
        },
{
    let n = chars.len();
    let mut pos: usize = 0;
    let mut rem: usize = k;
    loop
        invariant
            n == chars@.len(),
            pos <= n,
            nth_line_from(chars@, 0, k as nat) == nth_line_from(chars@, pos as int, rem as nat),
        decreases n - pos,
    {
        if pos == n {
            return None;
        }
        let mut end = pos;
        while end < n && chars[end] != '\n'
            invariant
                n == chars@.len(),
                pos <= end <= n,
                pos < n,
                line_end(chars@, pos as int) == line_end(chars@, end as int),
            decreases n - end,
        {
            end = end + 1;
        }
        proof {
            lemma_line_end_bounds(chars@, pos as int);
        }
        assert(line_end(chars@, pos as int) == end);
        if rem == 0 {
            let stop = if end < n && pos < end && chars[end - 1] == '\r' { end - 1 } else { end };
            return Some(string_from_range(chars, pos, stop));
        }
        if end == n {
            return None;
        }
        pos = end + 1;
        rem = rem - 1;
    }
}

/// Renders a diagnostic for a reader: `path:line:column: error[code]:
/// message`, followed by the offending source line when there is one.
pub fn render_diagnostic(path: &str, source: &str, diagnostic: &Diagnostic) -> (r: String)
    ensures
        r@ == rendered_diagnostic(path@, source@, *diagnostic),
{
    let position = diagnostic.span.start_pos;
    let mut rendered = String::from_str(path);
    push_char(&mut rendered, ':');
    let line_text = usize_to_string(position.line);
    rendered = concat_strings(rendered, &line_text);
    push_char(&mut rendered, ':');
    let column_text = usize_to_string(position.column);
    rendered = concat_strings(rendered, &column_text);
    rendered = concat_str(rendered, ": error[");
    rendered = concat_strings(rendered, &diagnostic.code);
    rendered = concat_str(rendered, "]: ");
    rendered = concat_strings(rendered, &diagnostic.message);
    let chars = chars_of(source);
    let index = if position.line == 0 { 0 } else { position.line - 1 };
    match source_line(&chars, index) {
        Some(text) => {
            rendered = concat_str(rendered, "\n  | ");
            rendered = concat_strings(rendered, &text);
        },
        None => {},
    }
    rendered
}

} // verus!
