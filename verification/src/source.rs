use vstd::prelude::*;

verus! {

/// A line/column position in a source file (both counted from 1).
#[derive(Debug, Clone, Copy, PartialEq, Eq)]
pub struct Position {
    pub line: usize,
    pub column: usize,
}

/// A region of source text, as character offsets plus line/column positions.
#[derive(Debug, Clone, Copy, PartialEq, Eq)]
pub struct Span {
    pub start: usize,
    pub end: usize,
    pub start_pos: Position,
    pub end_pos: Position,
}

/// The span that starts where the earlier of two spans starts and ends where
/// the later of the two ends.
pub open spec fn spec_cover(a: Span, b: Span) -> Span {
    Span {
        start: if b.start < a.start { b.start } else { a.start },
        start_pos: if b.start < a.start { b.start_pos } else { a.start_pos },
        end: if a.end < b.end { b.end } else { a.end },
        end_pos: if a.end < b.end { b.end_pos } else { a.end_pos },
    }
}

/// The covering span encloses both spans, and its offsets are the least and
/// greatest of theirs: it is the smallest enclosing span.
pub proof fn lemma_cover_encloses(a: Span, b: Span)
    ensures
        spec_cover(a, b).start <= a.start && spec_cover(a, b).start <= b.start,
        spec_cover(a, b).end >= a.end && spec_cover(a, b).end >= b.end,
        spec_cover(a, b).start == a.start || spec_cover(a, b).start == b.start,
        spec_cover(a, b).end == a.end || spec_cover(a, b).end == b.end,
{
}

/// Covering a span with itself gives it back, and the order of two spans
/// does not change the covered offsets.
pub proof fn lemma_cover_idempotent_symmetric(a: Span, b: Span)
    ensures
        spec_cover(a, a) == a,
        spec_cover(a, b).start == spec_cover(b, a).start,
        spec_cover(a, b).end == spec_cover(b, a).end,
{
}

impl Span {
    pub fn new(start: usize, end: usize, start_pos: Position, end_pos: Position) -> (s: Span)
        ensures
            s == (Span { start, end, start_pos, end_pos }),
    {
        Span { start, end, start_pos, end_pos }
    }

    /// Smallest span enclosing both `self` and `other`.
    pub fn cover(self, other: Span) -> (s: Span)
        ensures
            s == spec_cover(self, other),
    {
        let (start, start_pos) = if other.start < self.start {
            (other.start, other.start_pos)
        } else {
            (self.start, self.start_pos)
        };
        let (end, end_pos) = if self.end < other.end {
            (other.end, other.end_pos)
        } else {
            (self.end, self.end_pos)
        };
        Span { start, end, start_pos, end_pos }
    }
}

/// A named source text.
pub struct SourceFile {
    pub name: String,
    pub text: String,
}

impl SourceFile {
    pub fn new(name: &str, text: &str) -> (f: SourceFile)
        ensures
            f.name@ == name@,
            f.text@ == text@,
    {
        SourceFile { name: String::from_str(name), text: String::from_str(text) }
    }
}

} // verus!
