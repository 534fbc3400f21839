use vstd::prelude::*;

use crate::errors::{error_at, CompileError, CompileErrorV, CompilerResult, ErrorKind, ErrorKindV};
use crate::source_location::SourceLocation;
use crate::text::{alphabetic, chars_of, is_alphabetic, substring};
use crate::tokens::{tokens_view, Token, TokenV, TokenValue, TokenValueV};

verus! {

// ---------------------------------------------------------------------------
// The token grammar, over the characters of the source.
// ---------------------------------------------------------------------------

/// ASCII whitespace, which separates tokens.
pub open spec fn is_space(c: char) -> bool {
    c == ' ' || c == '\t' || c == '\n' || c == '\r' || c == '\x0C'
}

pub open spec fn is_digit(c: char) -> bool {
    '0' <= c && c <= '9'
}

pub open spec fn is_ascii_letter(c: char) -> bool {
    ('a' <= c && c <= 'z') || ('A' <= c && c <= 'Z')
}

/// A character of an identifier or keyword: a letter or `_`.
pub open spec fn is_word_char(c: char) -> bool {
    c == '_' || if (c as u32) < 128 {
        is_ascii_letter(c)
    } else {
        alphabetic(c)
    }
}

/// The classes of characters that make up the body of a longer token.
pub ghost enum CharClass {
    Digit,
    Word,
    StringBody,
    CommentBody,
}

pub open spec fn in_class(c: char, k: CharClass) -> bool {
    match k {
        CharClass::Digit => is_digit(c),
        CharClass::Word => is_word_char(c),
        CharClass::StringBody => c != '"' && c != '\n',
        CharClass::CommentBody => c != '\n',
    }
}

/// The end of the run of characters of class `k` that starts at `i`.
pub open spec fn scan(s: Seq<char>, i: int, k: CharClass) -> int
    decreases s.len() - i,
{
    if i < 0 || i >= s.len() || !in_class(s[i], k) {
        i
    } else {
        scan(s, i + 1, k)
    }
}

/// The token that a keyword spells, or an identifier.
pub open spec fn keyword(w: Seq<char>) -> TokenValueV {
    if w == "print"@ {
        TokenValueV::Print
    } else if w == "assert"@ {
        TokenValueV::Assert
    } else if w == "test"@ {
        TokenValueV::Test
    } else if w == "fn"@ {
        TokenValueV::Fn
    } else if w == "return"@ {
        TokenValueV::Return
    } else if w == "true"@ {
        TokenValueV::True
    } else if w == "false"@ {
        TokenValueV::False
    } else if w == "if"@ {
        TokenValueV::If
    } else if w == "else"@ {
        TokenValueV::Else
    } else {
        TokenValueV::Identifier(w)
    }
}

/// What the lexer does at a character that is not whitespace.
pub ghost enum Step {
    /// A comment, which ends before index `next`.
    Comment(int),
    /// A token that is `width` characters wide.
    Emit(TokenValueV, int),
    /// An error.
    Fail(CompileErrorV),
}

pub open spec fn next_is(s: Seq<char>, i: int, c: char) -> bool {
    i + 1 < s.len() && s[i + 1] == c
}

/// A one- or two-character symbol: the two-character form when `second` follows.
pub open spec fn pair(s: Seq<char>, i: int, second: char, long: TokenValueV, short: TokenValueV) -> Step {
    if next_is(s, i, second) {
        Step::Emit(long, 2)
    } else {
        Step::Emit(short, 1)
    }
}

/// The step at index `i`, where `col` is the column of the character before it.
pub open spec fn step(s: Seq<char>, i: int, line: int, col: int) -> Step {
    let c = s[i];
    if c == ';' {
        Step::Emit(TokenValueV::Semicolon, 1)
    } else if c == '+' {
        Step::Emit(TokenValueV::Plus, 1)
    } else if c == '*' {
        Step::Emit(TokenValueV::Star, 1)
    } else if c == ',' {
        Step::Emit(TokenValueV::Comma, 1)
    } else if c == '(' {
        Step::Emit(TokenValueV::OpenParen, 1)
    } else if c == ')' {
        Step::Emit(TokenValueV::CloseParen, 1)
    } else if c == '{' {
        Step::Emit(TokenValueV::OpenBracket, 1)
    } else if c == '}' {
        Step::Emit(TokenValueV::CloseBracket, 1)
    } else if c == '-' {
        pair(s, i, '>', TokenValueV::Arrow, TokenValueV::Minus)
    } else if c == '/' {
        if next_is(s, i, '/') {
            Step::Comment(scan(s, i + 2, CharClass::CommentBody))
        } else {
            Step::Emit(TokenValueV::ForwardSlash, 1)
        }
    } else if c == '=' {
        pair(s, i, '=', TokenValueV::EqualEqual, TokenValueV::Equal)
    } else if c == '<' {
        pair(s, i, '=', TokenValueV::LessThanEqual, TokenValueV::LessThan)
    } else if c == '>' {
        pair(s, i, '=', TokenValueV::GreaterThanEqual, TokenValueV::GreaterThan)
    } else if c == '!' {
        pair(s, i, '=', TokenValueV::BangEqual, TokenValueV::Bang)
    } else if is_digit(c) {
        let j = scan(s, i + 1, CharClass::Digit);
        Step::Emit(TokenValueV::Number(s.subrange(i, j)), j - i)
    } else if c == '"' {
        let j = scan(s, i + 1, CharClass::StringBody);
        if j < s.len() && s[j] == '"' {
            Step::Emit(TokenValueV::String(s.subrange(i + 1, j)), j + 1 - i)
        } else {
            Step::Fail(
                error_at(
                    SourceLocation::on_line(line as usize, (col + 1) as usize, (col + (j - i)) as usize),
                    ErrorKindV::UnterminatedString,
                ),
            )
        }
    } else if is_word_char(c) {
        let j = scan(s, i + 1, CharClass::Word);
        Step::Emit(keyword(s.subrange(i, j)), j - i)
    } else {
        Step::Fail(
            error_at(
                SourceLocation::on_line(line as usize, (col + 1) as usize, (col + 1) as usize),
                ErrorKindV::InvalidCharacter(c),
            ),
        )
    }
}

/// Puts `pre` in front of the tokens of a successful result.
pub open spec fn prepend(
    pre: Seq<TokenV>,
    r: Result<Seq<TokenV>, CompileErrorV>,
) -> Result<Seq<TokenV>, CompileErrorV> {
    match r {
        Ok(ts) => Ok(pre + ts),
        Err(e) => Err(e),
    }
}

pub open spec fn token_at(value: TokenValueV, line: int, first: int, last: int) -> TokenV {
    TokenV {
        value,
        source_location: SourceLocation::on_line(line as usize, first as usize, last as usize),
    }
}

/// The tokens of `s` from index `i` on, where `line` is the current line and
/// `col` the column of the character before `i`.
pub open spec fn lex_from(s: Seq<char>, i: int, line: int, col: int) -> Result<Seq<TokenV>, CompileErrorV>
    decreases s.len() - i,
    via lex_from_decreases
{
    if i < 0 || i >= s.len() {
        Ok(seq![token_at(TokenValueV::EndOfFile, line, col + 1, col + 1)])
    } else if is_space(s[i]) {
        if s[i] == '\n' {
            lex_from(s, i + 1, line + 1, 0)
        } else {
            lex_from(s, i + 1, line, col + 1)
        }
    } else {
        match step(s, i, line, col) {
            Step::Comment(j) => lex_from(s, j, line, col + (j - i)),
            Step::Emit(v, w) => prepend(
                seq![token_at(v, line, col + 1, col + w)],
                lex_from(s, i + w, line, col + w),
            ),
            Step::Fail(e) => Err(e),
        }
    }
}

#[via_fn]
proof fn lex_from_decreases(s: Seq<char>, i: int, line: int, col: int) {
    if 0 <= i < s.len() && !is_space(s[i]) {
        lemma_step_advances(s, i, line, col);
    }
}

/// The tokens of a whole source text.
pub open spec fn lex_spec(s: Seq<char>) -> Result<Seq<TokenV>, CompileErrorV> {
    lex_from(s, 0, 1, 0)
}

pub proof fn lemma_scan_bounds(s: Seq<char>, i: int, k: CharClass)
    requires
        0 <= i <= s.len(),
    ensures
        i <= scan(s, i, k) <= s.len(),
        scan(s, i, k) == s.len() || !in_class(s[scan(s, i, k)], k),
        forall|m: int| i <= m < scan(s, i, k) ==> in_class(#[trigger] s[m], k),
    decreases s.len() - i,
{
    if i < s.len() && in_class(s[i], k) {
        lemma_scan_bounds(s, i + 1, k);
    }
}

pub proof fn lemma_scan_end(s: Seq<char>, i: int, j: int, k: CharClass)
    requires
        0 <= i <= j <= s.len(),
        forall|m: int| i <= m < j ==> in_class(#[trigger] s[m], k),
        j == s.len() || !in_class(s[j], k),
    ensures
        scan(s, i, k) == j,
    decreases j - i,
{
    if i < j {
        lemma_scan_end(s, i + 1, j, k);
    }
}

/// Each step moves past at least the character it starts at, and not past the end.
pub proof fn lemma_step_advances(s: Seq<char>, i: int, line: int, col: int)
    requires
        0 <= i < s.len(),
    ensures
        match step(s, i, line, col) {
            Step::Comment(j) => i < j <= s.len(),
            Step::Emit(_, w) => 0 < w && i + w <= s.len(),
            Step::Fail(_) => true,
        },
{
    lemma_scan_bounds(s, i + 1, CharClass::Digit);
    lemma_scan_bounds(s, i + 1, CharClass::Word);
    lemma_scan_bounds(s, i + 1, CharClass::StringBody);
    if i + 2 <= s.len() {
        lemma_scan_bounds(s, i + 2, CharClass::CommentBody);
    }
}

// ---------------------------------------------------------------------------
// The lexer.
// ---------------------------------------------------------------------------

/// Turns source text into tokens, one character at a time.
pub struct Lexer {
    code: Vec<char>,
    position: usize,
    current_line: usize,
    current_colum: usize,
    tokens: Vec<Token>,
}

fn is_digit_exec(c: char) -> (r: bool)
    ensures
        r == is_digit(c),
{
    '0' <= c && c <= '9'
}

fn is_word_char_exec(c: char) -> (r: bool)
    ensures
        r == is_word_char(c),
{
    if c == '_' {
        true
    } else if (c as u32) < 128 {
        ('a' <= c && c <= 'z') || ('A' <= c && c <= 'Z')
    } else {
        is_alphabetic(c)
    }
}

fn in_class_exec(c: char, k: u8) -> (r: bool)
    requires
        k < 4,
    ensures
        r == in_class(c, class_of(k)),
{
    if k == 0 {
        is_digit_exec(c)
    } else if k == 1 {
        is_word_char_exec(c)
    } else if k == 2 {
        c != '"' && c != '\n'
    } else {
        c != '\n'
    }
}

spec fn class_of(k: u8) -> CharClass {
    if k == 0 {
        CharClass::Digit
    } else if k == 1 {
        CharClass::Word
    } else if k == 2 {
        CharClass::StringBody
    } else {
        CharClass::CommentBody
    }
}

/// Whether `s[from..to]` spells `word`.
fn spells(s: &Vec<char>, from: usize, to: usize, word: &str) -> (r: bool)
    requires
        from <= to <= s.len(),
    ensures
        r == (s@.subrange(from as int, to as int) == word@),
{
    let n = word.unicode_len();
    if to - from != n {
        proof {
            assert(s@.subrange(from as int, to as int).len() != word@.len());
        }
        return false;
    }
    let mut k: usize = 0;
    while k < n
        invariant
            n == word@.len(),
            to - from == n,
            from <= to <= s.len(),
            k <= n,
            forall|m: int| 0 <= m < k ==> s@[from + m] == word@[m],
        decreases n - k,
    {
        if s[from + k] != word.get_char(k) {
            proof {
                assert(s@.subrange(from as int, to as int)[k as int] != word@[k as int]);
            }
            return false;
        }
        k = k + 1;
    }
    assert(s@.subrange(from as int, to as int) =~= word@);
    true
}

impl Lexer {
    /// The characters being read.
    pub closed spec fn source(&self) -> Seq<char> {
        self.code@
    }

    /// The tokens still to come, after those already emitted.
    pub closed spec fn outcome(&self) -> Result<Seq<TokenV>, CompileErrorV> {
        prepend(
            tokens_view(self.tokens@),
            lex_from(self.code@, self.position as int, self.current_line as int, self.current_colum as int),
        )
    }

    pub closed spec fn wf(&self) -> bool {
        &&& self.position <= self.code.len()
        &&& self.code.len() < usize::MAX
        &&& self.current_colum <= self.position
        &&& self.current_line <= self.position + 1
    }

    pub fn new(code: &str) -> (r: Self)
        requires
            code@.len() < usize::MAX,
        ensures
            r.wf(),
            r.source() == code@,
            r.outcome() == lex_spec(code@),
    {
        let r = Self {
            code: chars_of(code),
            position: 0,
            current_line: 1,
            current_colum: 0,
            tokens: Vec::new(),
        };
        proof {
            assert(tokens_view(r.tokens@) =~= Seq::<TokenV>::empty());
            match lex_spec(code@) {
                Ok(ts) => assert(Seq::<TokenV>::empty() + ts =~= ts),
                Err(_) => {},
            }
        }
        r
    }

    /// Moves past one character, keeping track of the line and column.
    fn advance(&mut self) -> (r: Option<char>)
        requires
            old(self).wf(),
        ensures
            final(self).wf(),
            final(self).code == old(self).code,
            final(self).tokens == old(self).tokens,
            old(self).position < old(self).code.len() ==> {
                let c = old(self).code@[old(self).position as int];
                &&& r == Some(c)
                &&& final(self).position == old(self).position + 1
                &&& final(self).current_line == if c == '\n' {
                    old(self).current_line + 1
                } else {
                    old(self).current_line as int
                }
                &&& final(self).current_colum == if c == '\n' {
                    0
                } else {
                    old(self).current_colum + 1
                }
            },
            old(self).position >= old(self).code.len() ==> r is None && *final(self) == *old(self),
    {
        if self.position >= self.code.len() {
            return None;
        }
        let c = self.code[self.position];
        self.position = self.position + 1;
        if c == '\n' {
            self.current_line = self.current_line + 1;
            self.current_colum = 0;
        } else {
            self.current_colum = self.current_colum + 1;
        }
        Some(c)
    }

    /// The character at `at`, if there is one.
    fn peek(&self, at: usize) -> (r: Option<char>)
        ensures
            at < self.code.len() ==> r == Some(self.code@[at as int]),
            at >= self.code.len() ==> r is None,
    {
        if at < self.code.len() {
            Some(self.code[at])
        } else {
            None
        }
    }

    /// The end of the run of characters of class `k` that starts at `from`.
    fn take_while(&self, from: usize, k: u8) -> (r: usize)
        requires
            k < 4,
            from <= self.code.len(),
        ensures
            r == scan(self.code@, from as int, class_of(k)),
            from <= r <= self.code.len(),
    {
        let mut j = from;
        while j < self.code.len() && in_class_exec(self.code[j], k)
            invariant
                k < 4,
                from <= j <= self.code.len(),
                forall|m: int| from <= m < j ==> in_class(#[trigger] self.code@[m], class_of(k)),
            decreases self.code.len() - j,
        {
            j = j + 1;
        }
        proof {
            lemma_scan_end(self.code@, from as int, j as int, class_of(k));
        }
        j
    }

    /// The token that the word `code[from..to]` spells.
    fn consume_identifier(&self, from: usize, to: usize) -> (r: TokenValue)
        requires
            from <= to <= self.code.len(),
        ensures
            r@ == keyword(self.code@.subrange(from as int, to as int)),
    {
        if spells(&self.code, from, to, "print") {
            TokenValue::Print
        } else if spells(&self.code, from, to, "assert") {
            TokenValue::Assert
        } else if spells(&self.code, from, to, "test") {
            TokenValue::Test
        } else if spells(&self.code, from, to, "fn") {
            TokenValue::Fn
        } else if spells(&self.code, from, to, "return") {
            TokenValue::Return
        } else if spells(&self.code, from, to, "true") {
            TokenValue::True
        } else if spells(&self.code, from, to, "false") {
            TokenValue::False
        } else if spells(&self.code, from, to, "if") {
            TokenValue::If
        } else if spells(&self.code, from, to, "else") {
            TokenValue::Else
        } else {
            TokenValue::Identifier(substring(&self.code, from, to))
        }
    }

    /// A two-character symbol when `second` follows, else a one-character one.
    fn consume_pair(&self, second: char, long: TokenValue, short: TokenValue) -> (r: (
        TokenValue,
        usize,
    ))
        requires
            self.wf(),
            self.position < self.code.len(),
        ensures
            Step::Emit(r.0@, r.1 as int) == pair(self.code@, self.position as int, second, long@, short@),
    {
        if self.peek(self.position + 1) == Some(second) {
            (long, 2)
        } else {
            (short, 1)
        }
    }

    /// The string literal that starts at the current position.
    fn consume_string(&self) -> (r: CompilerResult<(TokenValue, usize)>)
        requires
            self.wf(),
            self.position < self.code.len(),
            self.code@[self.position as int] == '"',
        ensures
            step_matches(
                step(self.code@, self.position as int, self.current_line as int, self.current_colum as int),
                r,
            ),
    {
        let i = self.position;
        let j = self.take_while(i + 1, 2);
        if j < self.code.len() && self.code[j] == '"' {
            Ok((TokenValue::String(substring(&self.code, i + 1, j)), j + 1 - i))
        } else {
            Err(
                CompileError {
                    location: SourceLocation::new(
                        self.current_line,
                        self.current_colum + 1,
                        self.current_colum + (j - i),
                    ),
                    kind: ErrorKind::UnterminatedString,
                },
            )
        }
    }

    /// What comes at the current position, which holds no whitespace: a token
    /// and its width, or (as `None`) a comment and its length.
    fn next_token(&self) -> (r: CompilerResult<(Option<TokenValue>, usize)>)
        requires
            self.wf(),
            self.position < self.code.len(),
            !is_space(self.code@[self.position as int]),
        ensures
            step_or_comment_matches(
                step(self.code@, self.position as int, self.current_line as int, self.current_colum as int),
                self.position as int,
                r,
            ),
    {
        let i = self.position;
        let c = self.code[i];
        let one = |v: TokenValue| -> (r: CompilerResult<(Option<TokenValue>, usize)>)
            ensures
                r == Ok::<(Option<TokenValue>, usize), CompileError>((Some(v), 1usize)),
            { Ok((Some(v), 1)) };
        if c == ';' {
            one(TokenValue::Semicolon)
        } else if c == '+' {
            one(TokenValue::Plus)
        } else if c == '*' {
            one(TokenValue::Star)
        } else if c == ',' {
            one(TokenValue::Comma)
        } else if c == '(' {
            one(TokenValue::OpenParen)
        } else if c == ')' {
            one(TokenValue::CloseParen)
        } else if c == '{' {
            one(TokenValue::OpenBracket)
        } else if c == '}' {
            one(TokenValue::CloseBracket)
        } else if c == '-' {
            let (v, w) = self.consume_pair('>', TokenValue::Arrow, TokenValue::Minus);
            Ok((Some(v), w))
        } else if c == '/' {
            if self.peek(i + 1) == Some('/') {
                let j = self.take_while(i + 2, 3);
                Ok((None, j - i))
            } else {
                one(TokenValue::ForwardSlash)
            }
        } else if c == '=' {
            let (v, w) = self.consume_pair('=', TokenValue::EqualEqual, TokenValue::Equal);
            Ok((Some(v), w))
        } else if c == '<' {
            let (v, w) = self.consume_pair('=', TokenValue::LessThanEqual, TokenValue::LessThan);
            Ok((Some(v), w))
        } else if c == '>' {
            let (v, w) = self.consume_pair(
                '=',
                TokenValue::GreaterThanEqual,
                TokenValue::GreaterThan,
            );
            Ok((Some(v), w))
        } else if c == '!' {
            let (v, w) = self.consume_pair('=', TokenValue::BangEqual, TokenValue::Bang);
            Ok((Some(v), w))
        } else if is_digit_exec(c) {
            let j = self.take_while(i + 1, 0);
            Ok((Some(TokenValue::Number(substring(&self.code, i, j))), j - i))
        } else if c == '"' {
            match self.consume_string() {
                Ok((v, w)) => Ok((Some(v), w)),
                Err(e) => Err(e),
            }
        } else if is_word_char_exec(c) {
            let j = self.take_while(i + 1, 1);
            Ok((Some(self.consume_identifier(i, j)), j - i))
        } else {
            Err(
                CompileError {
                    location: SourceLocation::new(
                        self.current_line,
                        self.current_colum + 1,
                        self.current_colum + 1,
                    ),
                    kind: ErrorKind::InvalidCharacter(c),
                },
            )
        }
    }

    /// Appends a token that ends at the current column and is `len` wide.
    fn emit_token(&mut self, len: usize, value: TokenValue)
        requires
            old(self).wf(),
            1 <= len <= old(self).current_colum,
        ensures
            final(self).wf(),
            final(self).code == old(self).code,
            final(self).position == old(self).position,
            final(self).current_line == old(self).current_line,
            final(self).current_colum == old(self).current_colum,
            tokens_view(final(self).tokens@) == tokens_view(old(self).tokens@).push(
                token_at(
                    value@,
                    old(self).current_line as int,
                    old(self).current_colum - len + 1,
                    old(self).current_colum as int,
                ),
            ),
    {
        let location = SourceLocation::new(
            self.current_line,
            self.current_colum - len + 1,
            self.current_colum,
        );
        self.tokens.push(Token { value, source_location: location });
        proof {
            assert(tokens_view(self.tokens@) =~= tokens_view(old(self).tokens@).push(
                token_at(
                    value@,
                    old(self).current_line as int,
                    old(self).current_colum - len + 1,
                    old(self).current_colum as int,
                ),
            ));
        }
    }

    /// Moves `w` characters forward on the current line.
    fn skip_on_line(&mut self, w: usize)
        requires
            old(self).wf(),
            old(self).position + w <= old(self).code.len(),
        ensures
            final(self).wf(),
            final(self).code == old(self).code,
            final(self).tokens == old(self).tokens,
            final(self).position == old(self).position + w,
            final(self).current_line == old(self).current_line,
            final(self).current_colum == old(self).current_colum + w,
    {
        self.position = self.position + w;
        self.current_colum = self.current_colum + w;
    }

    /// Reads the rest of the source: the tokens, ended by `EndOfFile`, or the first error.
    pub fn parse_file(&mut self) -> (r: CompilerResult<Vec<Token>>)
        requires
            old(self).wf(),
        ensures
            lexed(r) == old(self).outcome(),
    {
        loop
            invariant
                self.wf(),
                self.outcome() == old(self).outcome(),
            decreases self.code.len() - self.position,
        {
            let i = self.position;
            if i >= self.code.len() {
                let ghost before = tokens_view(self.tokens@);
                let line = self.current_line;
                let col = self.current_colum + 1;
                self.tokens.push(
                    Token {
                        value: TokenValue::EndOfFile,
                        source_location: SourceLocation::new(line, col, col),
                    },
                );
                let mut out: Vec<Token> = Vec::new();
                core::mem::swap(&mut out, &mut self.tokens);
                proof {
                    assert(tokens_view(out@) =~= before + seq![token_at(TokenValueV::EndOfFile, line as int, col as int, col as int)]);
                }
                return Ok(out);
            }
            let c = self.code[i];
            if c == ' ' || c == '\t' || c == '\n' || c == '\r' || c == '\x0C' {
                self.advance();
                continue;
            }
            proof {
                lemma_step_advances(self.code@, i as int, self.current_line as int, self.current_colum as int);
            }
            let ghost pre = tokens_view(self.tokens@);
            let ghost line = self.current_line as int;
            let ghost col = self.current_colum as int;
            match self.next_token() {
                Err(e) => {
                    return Err(e);
                },
                Ok((None, w)) => {
                    self.skip_on_line(w);
                },
                Ok((Some(v), w)) => {
                    let ghost vv = v@;
                    self.skip_on_line(w);
                    self.emit_token(w, v);
                    proof {
                        let rest = lex_from(self.code@, self.position as int, line, col + w);
                        match rest {
                            Ok(ts) => {
                                assert(pre.push(token_at(vv, line, col + 1, col + w)) + ts
                                    =~= pre + (seq![token_at(vv, line, col + 1, col + w)] + ts));
                            },
                            Err(_) => {},
                        }
                    }
                },
            }
        }
    }
}

/// How an exec step result corresponds to a `Step`.
pub open spec fn step_matches(s: Step, r: CompilerResult<(TokenValue, usize)>) -> bool {
    match r {
        Ok((v, w)) => s == Step::Emit(v@, w as int),
        Err(e) => s == Step::Fail(e@),
    }
}

pub open spec fn step_or_comment_matches(
    s: Step,
    i: int,
    r: CompilerResult<(Option<TokenValue>, usize)>,
) -> bool {
    match r {
        Ok((Some(v), w)) => s == Step::Emit(v@, w as int),
        Ok((None, w)) => s == Step::Comment(i + w),
        Err(e) => s == Step::Fail(e@),
    }
}

/// The mathematical form of a lexer result.
pub open spec fn lexed(r: CompilerResult<Vec<Token>>) -> Result<Seq<TokenV>, CompileErrorV> {
    match r {
        Ok(ts) => Ok(tokens_view(ts@)),
        Err(e) => Err(e@),
    }
}

/// The tokens of a source text, ended by `EndOfFile`, or the first error.
pub fn tokenize(code: &str) -> (r: CompilerResult<Vec<Token>>)
    requires
        code@.len() < usize::MAX,
    ensures
        lexed(r) == lex_spec(code@),
{
    let mut lexer = Lexer::new(code);
    lexer.parse_file()
}

} // verus!
