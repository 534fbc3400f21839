use vstd::prelude::*;

use crate::errors::CompileErrorV;
use crate::lexer::{
    is_ascii_letter, is_digit, is_space, is_word_char, keyword, lemma_scan_end, lemma_step_advances,
    lemma_scan_bounds, lex_from, lex_spec, step, token_at, in_class, CharClass, Step,
};
use crate::text::{decimal, digit_char};
use crate::parser_spec::{all_digits, numbers_are_digits};
use crate::tokens::{TokenV, TokenValueV};

verus! {

/// A successful lexing ends with exactly one `EndOfFile` token: it is the last
/// token and no other token is `EndOfFile`.
pub proof fn lemma_lex_ends_with_one_eof(s: Seq<char>, i: int, line: int, col: int)
    ensures
        lex_from(s, i, line, col) matches Ok(ts) ==> {
            &&& ts.len() >= 1
            &&& ts.last().value == TokenValueV::EndOfFile
            &&& forall|k: int| 0 <= k < ts.len() - 1 ==> ts[k].value != TokenValueV::EndOfFile
        },
    decreases s.len() - i,
{
    if i < 0 || i >= s.len() {
    } else if is_space(s[i]) {
        if s[i] == '\n' {
            lemma_lex_ends_with_one_eof(s, i + 1, line + 1, 0);
        } else {
            lemma_lex_ends_with_one_eof(s, i + 1, line, col + 1);
        }
    } else {
        lemma_step_advances(s, i, line, col);
        match step(s, i, line, col) {
            Step::Comment(j) => lemma_lex_ends_with_one_eof(s, j, line, col + (j - i)),
            Step::Emit(v, w) => {
                lemma_lex_ends_with_one_eof(s, i + w, line, col + w);
                lemma_emitted_is_not_eof(s, i, line, col);
                let rest = lex_from(s, i + w, line, col + w);
                if let Ok(ts) = rest {
                    let all = seq![token_at(v, line, col + 1, col + w)] + ts;
                    assert forall|k: int| 0 <= k < all.len() - 1 implies all[k].value
                        != TokenValueV::EndOfFile by {
                        if k > 0 {
                            assert(all[k] == ts[k - 1]);
                        }
                    }
                    assert(all.last() == ts.last());
                }
            },
            Step::Fail(_) => {},
        }
    }
}

/// No character of the source produces an `EndOfFile` token.
pub proof fn lemma_emitted_is_not_eof(s: Seq<char>, i: int, line: int, col: int)
    requires
        0 <= i < s.len(),
    ensures
        step(s, i, line, col) matches Step::Emit(v, _) ==> v != TokenValueV::EndOfFile,
{
}

/// Lexing a whole source: it ends with exactly one `EndOfFile`.
pub proof fn lemma_tokens_end_with_eof(s: Seq<char>)
    ensures
        lex_spec(s) matches Ok(ts) ==> {
            &&& ts.len() >= 1
            &&& ts.last().value == TokenValueV::EndOfFile
            &&& forall|k: int| 0 <= k < ts.len() - 1 ==> ts[k].value != TokenValueV::EndOfFile
        },
{
    lemma_lex_ends_with_one_eof(s, 0, 1, 0);
}

proof fn lemma_decimal_digits(n: nat)
    ensures
        decimal(n).len() >= 1,
        forall|k: int| 0 <= k < decimal(n).len() ==> is_digit(#[trigger] decimal(n)[k]),
    decreases n,
{
    if n >= 10 {
        lemma_decimal_digits(n / 10);
        let d = decimal(n / 10);
        assert(decimal(n) == d.push(digit_char(n % 10)));
        assert forall|k: int| 0 <= k < decimal(n).len() implies is_digit(#[trigger] decimal(n)[k]) by {
            if k < d.len() {
                assert(decimal(n)[k] == d[k]);
            }
        }
    }
}

/// The decimal form of a natural number reads back as one number token with
/// the same digits, followed by the end of the input.
pub proof fn lemma_number_literal_round_trip(n: nat)
    ensures
        lex_spec(decimal(n)) == Ok::<Seq<TokenV>, CompileErrorV>(
            seq![
                token_at(TokenValueV::Number(decimal(n)), 1, 1, decimal(n).len() as int),
                token_at(
                    TokenValueV::EndOfFile,
                    1,
                    (decimal(n).len() + 1) as int,
                    (decimal(n).len() + 1) as int,
                ),
            ],
        ),
{
    let s = decimal(n);
    lemma_decimal_digits(n);
    lemma_scan_end(s, 1, s.len() as int, CharClass::Digit);
    assert(s.subrange(0, s.len() as int) =~= s);
    assert(lex_from(s, s.len() as int, 1, s.len() as int) == Ok::<Seq<TokenV>, CompileErrorV>(
        seq![token_at(TokenValueV::EndOfFile, 1, (s.len() + 1) as int, (s.len() + 1) as int)],
    ));
    let eof = token_at(TokenValueV::EndOfFile, 1, (s.len() + 1) as int, (s.len() + 1) as int);
    let num = token_at(TokenValueV::Number(s), 1, 1, s.len() as int);
    assert(seq![num] + seq![eof] =~= seq![num, eof]);
}

/// The quoted form of a text without quotes or line breaks reads back as one
/// string token with that text, followed by the end of the input.
pub proof fn lemma_string_literal_round_trip(t: Seq<char>)
    requires
        forall|k: int| 0 <= k < t.len() ==> #[trigger] t[k] != '"' && t[k] != '\n',
    ensures
        lex_spec(seq!['"'] + t + seq!['"']) == Ok::<Seq<TokenV>, CompileErrorV>(
            seq![
                token_at(TokenValueV::String(t), 1, 1, (t.len() + 2) as int),
                token_at(TokenValueV::EndOfFile, 1, (t.len() + 3) as int, (t.len() + 3) as int),
            ],
        ),
{
    let s = seq!['"'] + t + seq!['"'];
    let n = s.len() as int;
    assert forall|m: int| 1 <= m < n - 1 implies in_class(#[trigger] s[m], CharClass::StringBody) by {
        assert(s[m] == t[m - 1]);
    }
    lemma_scan_end(s, 1, n - 1, CharClass::StringBody);
    assert(s.subrange(1, n - 1) =~= t);
    let eof = token_at(TokenValueV::EndOfFile, 1, n + 1, n + 1);
    let st = token_at(TokenValueV::String(t), 1, 1, n);
    assert(lex_from(s, n, 1, n) == Ok::<Seq<TokenV>, CompileErrorV>(seq![eof]));
    assert(seq![st] + seq![eof] =~= seq![st, eof]);
}

/// A word of ASCII letters alone reads back as the token that `keyword` gives it.
pub proof fn lemma_word_round_trip(w: Seq<char>)
    requires
        w.len() >= 1,
        forall|k: int| 0 <= k < w.len() ==> is_ascii_letter(#[trigger] w[k]),
    ensures
        lex_spec(w) == Ok::<Seq<TokenV>, CompileErrorV>(
            seq![
                token_at(keyword(w), 1, 1, w.len() as int),
                token_at(TokenValueV::EndOfFile, 1, (w.len() + 1) as int, (w.len() + 1) as int),
            ],
        ),
{
    let n = w.len() as int;
    assert forall|m: int| 1 <= m < n implies in_class(#[trigger] w[m], CharClass::Word) by {
        assert(is_ascii_letter(w[m]));
    }
    assert(is_word_char(w[0]));
    lemma_scan_end(w, 1, n, CharClass::Word);
    assert(w.subrange(0, n) =~= w);
    let eof = token_at(TokenValueV::EndOfFile, 1, n + 1, n + 1);
    let kw = token_at(keyword(w), 1, 1, n);
    assert(lex_from(w, n, 1, n) == Ok::<Seq<TokenV>, CompileErrorV>(seq![eof]));
    assert(seq![kw] + seq![eof] =~= seq![kw, eof]);
}

/// The printed boolean literals read back as the boolean tokens.
pub proof fn lemma_boolean_literal_round_trip()
    ensures
        lex_spec("true"@) == Ok::<Seq<TokenV>, CompileErrorV>(
            seq![token_at(TokenValueV::True, 1, 1, 4), token_at(TokenValueV::EndOfFile, 1, 5, 5)],
        ),
        lex_spec("false"@) == Ok::<Seq<TokenV>, CompileErrorV>(
            seq![token_at(TokenValueV::False, 1, 1, 5), token_at(TokenValueV::EndOfFile, 1, 6, 6)],
        ),
{
    reveal_strlit("true");
    reveal_strlit("false");
    reveal_strlit("print");
    reveal_strlit("assert");
    reveal_strlit("test");
    reveal_strlit("fn");
    reveal_strlit("return");
    lemma_word_round_trip("true"@);
    lemma_word_round_trip("false"@);
    assert(keyword("true"@) == TokenValueV::True);
    assert(keyword("false"@) == TokenValueV::False);
}

} // verus!

verus! {

/// Number tokens that the lexer makes hold decimal digits only.
pub proof fn lemma_lex_numbers_are_digits(s: Seq<char>, i: int, line: int, col: int)
    ensures
        lex_from(s, i, line, col) matches Ok(ts) ==> numbers_are_digits(ts),
    decreases s.len() - i,
{
    if i < 0 || i >= s.len() {
    } else if is_space(s[i]) {
        if s[i] == '\n' {
            lemma_lex_numbers_are_digits(s, i + 1, line + 1, 0);
        } else {
            lemma_lex_numbers_are_digits(s, i + 1, line, col + 1);
        }
    } else {
        lemma_step_advances(s, i, line, col);
        match step(s, i, line, col) {
            Step::Comment(j) => lemma_lex_numbers_are_digits(s, j, line, col + (j - i)),
            Step::Emit(v, w) => {
                lemma_lex_numbers_are_digits(s, i + w, line, col + w);
                lemma_scan_bounds(s, i + 1, CharClass::Digit);
                if let Ok(ts) = lex_from(s, i + w, line, col + w) {
                    let t = token_at(v, line, col + 1, col + w);
                    let all = seq![t] + ts;
                    if let TokenValueV::Number(ds) = v {
                        assert forall|k: int| 0 <= k < ds.len() implies '0' <= #[trigger] ds[k] && ds[k] <= '9' by {
                            assert(ds[k] == s[i + k]);
                        }
                    }
                    assert forall|k: int| 0 <= k < all.len() implies ((#[trigger] all[k]).value matches TokenValueV::Number(ds) ==> all_digits(ds)) by {
                        if k > 0 {
                            assert(all[k] == ts[k - 1]);
                        }
                    }
                }
            },
            Step::Fail(_) => {},
        }
    }
}

} // verus!

verus! {

/// The line and column (both 1-based) of the character at index `k`.
pub open spec fn position_of(s: Seq<char>, k: int) -> (int, int)
    decreases k,
{
    if k <= 0 {
        (1, 1)
    } else {
        let (l, c) = position_of(s, k - 1);
        if s[k - 1] == '\n' {
            (l + 1, 1)
        } else {
            (l, c + 1)
        }
    }
}

/// Whether the character at `x` is part of a line comment that the lexer,
/// reading from index `i` at line `line` after column `col`, skips.
pub open spec fn comment_char(s: Seq<char>, i: int, line: int, col: int, x: int) -> bool
    decreases s.len() - i,
    via comment_char_decreases
{
    if i < 0 || i >= s.len() {
        false
    } else if is_space(s[i]) {
        if s[i] == '\n' {
            comment_char(s, i + 1, line + 1, 0, x)
        } else {
            comment_char(s, i + 1, line, col + 1, x)
        }
    } else {
        match step(s, i, line, col) {
            Step::Comment(j) => (i <= x < j) || comment_char(s, j, line, col + (j - i), x),
            Step::Emit(_, w) => comment_char(s, i + w, line, col + w, x),
            Step::Fail(_) => false,
        }
    }
}

#[via_fn]
proof fn comment_char_decreases(s: Seq<char>, i: int, line: int, col: int, x: int) {
    if 0 <= i < s.len() && !is_space(s[i]) {
        lemma_step_advances(s, i, line, col);
    }
}

/// A span holds the position `(line, col)`.
pub open spec fn holds_point(t: TokenV, p: (int, int)) -> bool {
    &&& t.source_location.line_start <= p.0 <= t.source_location.line_end
    &&& t.source_location.char_start <= p.1 <= t.source_location.char_end
}

proof fn lemma_position_on_line(s: Seq<char>, i: int, m: int)
    requires
        0 <= i,
        0 <= m,
        i + m <= s.len(),
        forall|k: int| i <= k < i + m ==> #[trigger] s[k] != '\n',
    ensures
        position_of(s, i + m) == (position_of(s, i).0, position_of(s, i).1 + m),
    decreases m,
{
    if m > 0 {
        lemma_position_on_line(s, i, m - 1);
    }
}

proof fn lemma_step_has_no_line_break(s: Seq<char>, i: int, line: int, col: int)
    requires
        0 <= i < s.len(),
        !is_space(s[i]),
    ensures
        match step(s, i, line, col) {
            Step::Comment(j) => forall|k: int| i <= k < j ==> #[trigger] s[k] != '\n',
            Step::Emit(_, w) => forall|k: int| i <= k < i + w ==> #[trigger] s[k] != '\n',
            Step::Fail(_) => true,
        },
{
    lemma_step_advances(s, i, line, col);
    lemma_scan_bounds(s, i + 1, CharClass::Digit);
    lemma_scan_bounds(s, i + 1, CharClass::Word);
    lemma_scan_bounds(s, i + 1, CharClass::StringBody);
    if i + 2 <= s.len() {
        lemma_scan_bounds(s, i + 2, CharClass::CommentBody);
    }
}

proof fn lemma_position_bounds(s: Seq<char>, k: int)
    requires
        0 <= k,
    ensures
        1 <= position_of(s, k).0 <= k + 1,
        1 <= position_of(s, k).1 <= k + 1,
    decreases k,
{
    if k > 0 {
        lemma_position_bounds(s, k - 1);
    }
}

/// A token read from `s[i..i + w]`, on one line, spans the positions of those characters.
proof fn lemma_token_spans_its_text(s: Seq<char>, i: int, w: int, line: int, col: int, v: TokenValueV)
    requires
        0 <= i,
        0 < w,
        i + w <= s.len(),
        s.len() < usize::MAX,
        position_of(s, i) == (line, col + 1),
        forall|k: int| i <= k < i + w ==> #[trigger] s[k] != '\n',
    ensures
        forall|x: int| i <= x < i + w ==> holds_point(token_at(v, line, col + 1, col + w), #[trigger] position_of(s, x)),
{
    lemma_position_bounds(s, i);
    lemma_position_on_line(s, i, w);
    lemma_position_bounds(s, i + w);
    assert forall|x: int| i <= x < i + w implies holds_point(token_at(v, line, col + 1, col + w), #[trigger] position_of(s, x)) by {
        lemma_position_on_line(s, i, x - i);
    }
}

/// Every character from `i` on that is neither whitespace nor inside a line
/// comment lies in the span of some token.
pub open spec fn covered_from(s: Seq<char>, i: int, line: int, col: int) -> bool {
    lex_from(s, i, line, col) matches Ok(ts) ==> covers(s, i, line, col, ts)
}

/// The tokens' spans hold every character from `i` on that is neither
/// whitespace nor part of a line comment.
pub open spec fn covers(s: Seq<char>, i: int, line: int, col: int, ts: Seq<TokenV>) -> bool {
    forall|j: int|
        i <= j < s.len() && !is_space(#[trigger] s[j]) && !comment_char(s, i, line, col, j) ==> exists|k: int|
            0 <= k < ts.len() && holds_point(ts[k], position_of(s, j))
}

pub proof fn lemma_tokens_cover_from(s: Seq<char>, i: int, line: int, col: int)
    requires
        0 <= i <= s.len(),
        s.len() < usize::MAX,
        position_of(s, i) == (line, col + 1),
    ensures
        covered_from(s, i, line, col),
    decreases s.len() - i,
{
    if i >= s.len() {
    } else if is_space(s[i]) {
        let (l2, c2) = if s[i] == '\n' { (line + 1, 0) } else { (line, col + 1) };
        lemma_tokens_cover_from(s, i + 1, l2, c2);
        assert(lex_from(s, i, line, col) == lex_from(s, i + 1, l2, c2));
        if let Ok(ts) = lex_from(s, i + 1, l2, c2) {
            assert forall|x: int|
                i <= x < s.len() && !is_space(#[trigger] s[x]) && !comment_char(s, i, line, col, x) implies exists|k: int|
                    0 <= k < ts.len() && holds_point(ts[k], position_of(s, x)) by {
                assert(x != i);
                assert(comment_char(s, i, line, col, x) == comment_char(s, i + 1, l2, c2, x));
            }
        }
        assert(covered_from(s, i, line, col));
    } else {
        lemma_step_advances(s, i, line, col);
        lemma_step_has_no_line_break(s, i, line, col);
        match step(s, i, line, col) {
            Step::Comment(j) => {
                lemma_position_on_line(s, i, j - i);
                lemma_tokens_cover_from(s, j, line, col + (j - i));
                assert(s[i] == '/' && s[i + 1] == '/');
                assert(lex_from(s, i, line, col) == lex_from(s, j, line, col + (j - i)));
                if let Ok(ts) = lex_from(s, j, line, col + (j - i)) {
                    assert forall|x: int|
                        i <= x < s.len() && !is_space(#[trigger] s[x]) && !comment_char(s, i, line, col, x) implies exists|k: int|
                            0 <= k < ts.len() && holds_point(ts[k], position_of(s, x)) by {
                        assert(comment_char(s, i, line, col, x) == ((i <= x < j) || comment_char(s, j, line, col + (j - i), x)));
                    }
                }
                assert(covered_from(s, i, line, col));
            },
            Step::Emit(v, w) => {
                lemma_position_on_line(s, i, w);
                lemma_tokens_cover_from(s, i + w, line, col + w);
                lemma_token_spans_its_text(s, i, w, line, col, v);
                if let Ok(ts) = lex_from(s, i + w, line, col + w) {
                    let t = token_at(v, line, col + 1, col + w);
                    let all = seq![t] + ts;
                    assert(lex_from(s, i, line, col) == Ok::<Seq<TokenV>, CompileErrorV>(all));
                    assert(covers(s, i + w, line, col + w, ts));
                    assert forall|x: int|
                        i <= x < s.len() && !is_space(#[trigger] s[x]) && !comment_char(s, i, line, col, x) implies exists|k: int|
                            0 <= k < all.len() && holds_point(all[k], position_of(s, x)) by {
                        assert(comment_char(s, i, line, col, x) == comment_char(s, i + w, line, col + w, x));
                        if x < i + w {
                            assert(holds_point(all[0], position_of(s, x)));
                        } else {
                            let k = choose|k: int| 0 <= k < ts.len() && holds_point(ts[k], position_of(s, x));
                            assert(all[k + 1] == ts[k]);
                            assert(0 <= k + 1 < all.len() && holds_point(all[k + 1], position_of(s, x)));
                        }
                    }
                    assert(covers(s, i, line, col, all));
                    assert(covered_from(s, i, line, col));
                } else {
                    assert(lex_from(s, i, line, col) is Err);
                }
            },
            Step::Fail(_) => {},
        }
    }
}

/// When lexing a whole source succeeds, every character that is neither
/// whitespace nor part of a comment the lexer skipped lies inside the span of
/// some token.
pub proof fn lemma_tokens_cover_source(s: Seq<char>)
    requires
        s.len() < usize::MAX,
    ensures
        lex_spec(s) matches Ok(ts) ==> covers(s, 0, 1, 0, ts),
{
    lemma_tokens_cover_from(s, 0, 1, 0);
}

} // verus!
