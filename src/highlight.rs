use vstd::prelude::*;

use crate::source_location::SourceLocation;
use crate::text::{append_str, chars_of, decimal, push_char, push_decimal};

verus! {

broadcast use vstd::seq::group_seq_axioms;

/// A line without the carriage return of a `\r\n` ending.
pub open spec fn strip_cr(l: Seq<char>) -> Seq<char> {
    if l.len() > 0 && l.last() == '\r' {
        l.drop_last()
    } else {
        l
    }
}

/// The pieces of a text between line breaks; a piece that a `\n` ends loses
/// a `\r` just before it.
pub open spec fn split_lines(code: Seq<char>) -> Seq<Seq<char>>
    decreases code.len(),
{
    if code.len() == 0 {
        seq![Seq::empty()]
    } else {
        let rest = split_lines(code.drop_last());
        if code.last() == '\n' {
            rest.update(rest.len() - 1, strip_cr(rest.last())).push(Seq::empty())
        } else {
            rest.update(rest.len() - 1, rest.last().push(code.last()))
        }
    }
}

/// The lines of a text: the pieces between line breaks, without the empty
/// piece after a final line break.
pub open spec fn source_lines(code: Seq<char>) -> Seq<Seq<char>> {
    let p = split_lines(code);
    if p.last().len() == 0 {
        p.drop_last()
    } else {
        p
    }
}

pub proof fn lemma_split_lines_nonempty(code: Seq<char>)
    ensures
        split_lines(code).len() >= 1,
    decreases code.len(),
{
    if code.len() > 0 {
        lemma_split_lines_nonempty(code.drop_last());
    }
}

/// Line `n` of a diagnostic: its number, a bar, its text.
pub open spec fn entry(lines: Seq<Seq<char>>, n: nat) -> Seq<char> {
    decimal(n) + " | "@ + lines[n - 1]
}

/// The entries of lines `from..=to`, joined by line breaks.
pub open spec fn numbered(lines: Seq<Seq<char>>, from: nat, to: nat) -> Seq<char>
    decreases to,
{
    if to <= from {
        entry(lines, from)
    } else {
        numbered(lines, from, (to - 1) as nat) + "\n"@ + entry(lines, to)
    }
}

pub open spec fn repeat(c: char, n: nat) -> Seq<char> {
    Seq::new(n, |i: int| c)
}

pub open spec fn min(a: nat, b: nat) -> nat {
    if a <= b {
        a
    } else {
        b
    }
}

impl SourceLocation {
    /// The diagnostic excerpt of a span: the lines of the span that the text
    /// has, numbered, then a row of carets under the span's columns (none for
    /// an empty span, whose end is just before its start).
    pub open spec fn highlights(self, code: Seq<char>) -> Seq<char> {
        let ls = source_lines(code);
        let last = min(self.line_end as nat, ls.len());
        let width = decimal(self.line_end as nat).len();
        (if self.line_start > last {
            Seq::empty()
        } else {
            numbered(ls, self.line_start as nat, last)
        }) + "\n"@ + repeat(' ', (width + 3 + self.char_start - 1) as nat) + repeat(
            '^',
            (self.char_end + 1 - self.char_start) as nat,
        )
    }

    #[must_use]
    pub fn get_line_highlights(&self, source_code: &str) -> (r: String)
        requires
            1 <= self.line_start <= self.line_end,
            1 <= self.char_start <= self.char_end + 1,
            self.line_end < usize::MAX / 4,
            self.char_end < usize::MAX / 4,
        ensures
            r@ == self.highlights(source_code@),
    {
        let code = chars_of(source_code);
        let lines = lines_of(&code);
        let ghost ls = source_lines(code@);
        let last = if self.line_end <= lines.len() { self.line_end } else { lines.len() };
        let mut out = String::new();
        let mut n = self.line_start;
        while n <= last
            invariant
                lines@.len() == ls.len(),
                forall|i: int| 0 <= i < ls.len() ==> (#[trigger] lines@[i])@ == ls[i],
                last == min(self.line_end as nat, ls.len()),
                1 <= self.line_start <= n,
                n <= last + 1 || n == self.line_start,
                last < usize::MAX / 4,
                n == self.line_start ==> out@ == Seq::<char>::empty(),
                n > self.line_start ==> out@ == numbered(ls, self.line_start as nat, (n - 1) as nat),
            decreases last + 1 - n,
        {
            let ghost before = out@;
            if n > self.line_start {
                append_str(&mut out, "\n");
            }
            push_decimal(&mut out, n);
            append_str(&mut out, " | ");
            let line = &lines[n - 1];
            let ghost mid = out@;
            let mut k: usize = 0;
            while k < line.len()
                invariant
                    k <= line.len(),
                    out@ == mid + line@.take(k as int),
                decreases line.len() - k,
            {
                push_char(&mut out, line[k]);
                k = k + 1;
                assert(out@ =~= mid + line@.take(k as int));
            }
            proof {
                assert(line@.take(line.len() as int) =~= line@);
                if n > self.line_start {
                    assert(out@ =~= before + "\n"@ + entry(ls, n as nat));
                } else {
                    assert(out@ =~= entry(ls, n as nat));
                }
            }
            n = n + 1;
        }
        append_str(&mut out, "\n");
        let width = decimal_len(self.line_end);
        proof {
            lemma_decimal_len_bound(self.line_end as nat);
        }
        let pad = width + 3 + self.char_start - 1;
        let ghost head = out@;
        let mut k: usize = 0;
        while k < pad
            invariant
                k <= pad,
                out@ == head + repeat(' ', k as nat),
            decreases pad - k,
        {
            push_char(&mut out, ' ');
            k = k + 1;
            assert(out@ =~= head + repeat(' ', k as nat));
        }
        let ghost head2 = out@;
        let carets = self.char_end + 1 - self.char_start;
        let mut j: usize = 0;
        while j < carets
            invariant
                j <= carets,
                out@ == head2 + repeat('^', j as nat),
            decreases carets - j,
        {
            push_char(&mut out, '^');
            j = j + 1;
            assert(out@ =~= head2 + repeat('^', j as nat));
        }
        assert(out@ =~= self.highlights(source_code@));
        out
    }
}

proof fn lemma_decimal_len_bound(n: nat)
    ensures
        1 <= decimal(n).len() <= n + 1,
    decreases n,
{
    if n >= 10 {
        lemma_decimal_len_bound(n / 10);
    }
}

/// The number of decimal digits of `n`.
fn decimal_len(n: usize) -> (r: usize)
    ensures
        r == decimal(n as nat).len(),
    decreases n,
{
    proof {
        lemma_decimal_len_bound(n as nat);
        lemma_decimal_len_bound((n / 10) as nat);
    }
    if n < 10 {
        1
    } else {
        decimal_len(n / 10) + 1
    }
}

pub open spec fn views(v: Seq<Vec<char>>) -> Seq<Seq<char>> {
    v.map_values(|l: Vec<char>| l@)
}

/// The lines of a text.
fn lines_of(code: &Vec<char>) -> (r: Vec<Vec<char>>)
    ensures
        views(r@) == source_lines(code@),
{
    let mut pieces: Vec<Vec<char>> = Vec::new();
    let mut current: Vec<char> = Vec::new();
    let mut i: usize = 0;
    proof {
        assert(code@.take(0) =~= Seq::<char>::empty());
        assert(views(pieces@).push(current@) =~= split_lines(code@.take(0)));
    }
    while i < code.len()
        invariant
            i <= code.len(),
            views(pieces@).push(current@) == split_lines(code@.take(i as int)),
        decreases code.len() - i,
    {
        let c = code[i];
        let ghost prev = code@.take(i as int);
        proof {
            assert(code@.take(i + 1).drop_last() =~= prev);
            lemma_split_lines_nonempty(prev);
        }
        if c == '\n' {
            let ghost cur = current@;
            if current.len() > 0 && current[current.len() - 1] == '\r' {
                current.pop();
            }
            proof {
                assert(current@ =~= strip_cr(cur));
            }
            let mut done: Vec<char> = Vec::new();
            core::mem::swap(&mut done, &mut current);
            let ghost pv = views(pieces@);
            pieces.push(done);
            proof {
                assert(views(pieces@) =~= pv.push(done@));
            }
        } else {
            current.push(c);
        }
        i = i + 1;
        proof {
            assert(views(pieces@).push(current@) =~= split_lines(code@.take(i as int)));
        }
    }
    proof {
        assert(code@.take(code.len() as int) =~= code@);
    }
    if current.len() > 0 {
        pieces.push(current);
        proof {
            assert(views(pieces@) =~= split_lines(code@));
        }
    } else {
        proof {
            assert(views(pieces@) =~= split_lines(code@).drop_last());
        }
    }
    pieces
}

} // verus!
