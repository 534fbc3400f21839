use vstd::prelude::*;

verus! {

/// A region of the source text: lines and columns are 1-based and inclusive.
#[derive(Debug, Clone, PartialEq, Eq, Copy, Structural)]
pub struct SourceLocation {
    pub line_start: usize,
    pub line_end: usize,
    pub char_start: usize,
    pub char_end: usize,
}

impl SourceLocation {
    /// The span of the columns `char_start..=char_end` on one line.
    pub open spec fn on_line(line: usize, char_start: usize, char_end: usize) -> SourceLocation {
        SourceLocation { line_start: line, line_end: line, char_start, char_end }
    }

    /// The least span that encloses both arguments.
    pub open spec fn union(a: SourceLocation, b: SourceLocation) -> SourceLocation {
        SourceLocation {
            line_start: if a.line_start <= b.line_start { a.line_start } else { b.line_start },
            line_end: if a.line_end >= b.line_end { a.line_end } else { b.line_end },
            char_start: if a.char_start <= b.char_start { a.char_start } else { b.char_start },
            char_end: if a.char_end >= b.char_end { a.char_end } else { b.char_end },
        }
    }

    /// `self` encloses `other` in both lines and columns.
    pub open spec fn contains(self, other: SourceLocation) -> bool {
        &&& self.line_start <= other.line_start
        &&& other.line_end <= self.line_end
        &&& self.char_start <= other.char_start
        &&& other.char_end <= self.char_end
    }

    #[must_use]
    pub fn new(line: usize, char_start: usize, char_end: usize) -> (r: Self)
        ensures
            r == Self::on_line(line, char_start, char_end),
    {
        Self { line_start: line, line_end: line, char_start, char_end }
    }

    #[must_use]
    pub fn combine(a: &Self, b: &Self) -> (r: Self)
        ensures
            r == Self::union(*a, *b),
    {
        Self {
            line_start: if a.line_start <= b.line_start { a.line_start } else { b.line_start },
            line_end: if a.line_end >= b.line_end { a.line_end } else { b.line_end },
            char_start: if a.char_start <= b.char_start { a.char_start } else { b.char_start },
            char_end: if a.char_end >= b.char_end { a.char_end } else { b.char_end },
        }
    }
}

/// Combining spans does not depend on the order of its arguments.
pub proof fn lemma_combine_commutes(a: SourceLocation, b: SourceLocation)
    ensures
        SourceLocation::union(a, b) == SourceLocation::union(b, a),
{
}

/// The union of two spans encloses each of them, and is the least span that does.
pub proof fn lemma_combine_is_least_cover(a: SourceLocation, b: SourceLocation, c: SourceLocation)
    ensures
        SourceLocation::union(a, b).contains(a),
        SourceLocation::union(a, b).contains(b),
        c.contains(a) && c.contains(b) ==> c.contains(SourceLocation::union(a, b)),
{
}

} // verus!
