//! A compiler front end for a small statically typed language: a lexer, a
//! precedence-climbing parser, a type checker that tracks string ownership,
//! and the decisions of lowering to SSA IR.
pub mod analyzers;
pub mod ast;
pub mod errors;
pub mod highlight;
pub mod ir_plan;
pub mod lexer;
pub mod lexer_laws;
pub mod lowering;
pub mod messages;
pub mod parser_spec;
pub mod source_location;
pub mod stmt_plan;
pub mod syntax_parser;
pub mod text;
pub mod tokens;
pub mod types;
pub mod types_analyzer;
pub mod typing_laws;

pub use source_location::SourceLocation;

use vstd::prelude::*;

use analyzers::{analyze, apply_analyzer};
use ast::{File, FunctionV};
use errors::{CompileErrorV, CompilerResult};
use lexer::{lex_spec, tokenize};
use parser_spec::parse_spec;
use syntax_parser::{parsed, SyntaxParser};

verus! {

/// The syntax tree of a source text, or the first lexical or syntax error.
pub open spec fn parse_source(code: Seq<char>) -> Result<Seq<FunctionV>, CompileErrorV> {
    match lex_spec(code) {
        Ok(ts) => parse_spec(ts),
        Err(e) => Err(e),
    }
}

/// The checked and annotated syntax tree of a source text, or the first error.
pub open spec fn check_source(code: Seq<char>) -> Result<Seq<FunctionV>, CompileErrorV> {
    match parse_source(code) {
        Ok(fs) => analyze(fs),
        Err(e) => Err(e),
    }
}

/// Lexes and parses a source text.
pub fn parse_file(code: &str) -> (r: CompilerResult<File>)
    requires
        code@.len() < usize::MAX,
    ensures
        parsed(r) == parse_source(code@),
        r matches Ok(f) ==> ast::file_well_formed(f@),
{
    let tokens = match tokenize(code) {
        Ok(ts) => ts,
        Err(e) => return Err(e),
    };
    proof {
        lexer_laws::lemma_lex_numbers_are_digits(code@, 0, 1, 0);
    }
    let mut parser = SyntaxParser::new(tokens);
    parser.parse_file()
}

/// Lexes, parses and checks a source text: the tree that IR generation takes.
pub fn check_file(code: &str) -> (r: CompilerResult<File>)
    requires
        code@.len() < usize::MAX,
    ensures
        parsed(r) == check_source(code@),
{
    let mut ast = match parse_file(code) {
        Ok(f) => f,
        Err(e) => return Err(e),
    };
    match apply_analyzer(&mut ast) {
        Ok(()) => Ok(ast),
        Err(e) => Err(e),
    }
}

/// The first candidate, in order, that was found.
pub open spec fn first_found(found: Seq<Option<String>>) -> Option<String>
    decreases found.len(),
{
    if found.len() == 0 {
        None
    } else if found[0] is Some {
        found[0]
    } else {
        first_found(found.drop_first())
    }
}

/// Picks an executable from lookups made in order of preference: the first
/// lookup that found one.
pub fn find_exe(found: Vec<Option<String>>) -> (r: Option<String>)
    ensures
        r == first_found(found@),
{
    let mut rest = found;
    let ghost orig = found@;
    let mut k: usize = 0;
    let n = rest.len();
    proof {
        assert(orig.skip(0) =~= orig);
    }
    while k < n
        invariant
            n == orig.len(),
            k <= n,
            rest@ == orig.skip(k as int),
            orig == found@,
            first_found(orig) == first_found(orig.skip(k as int)),
        decreases n - k,
    {
        let ghost before = rest@;
        let item = rest.remove(0);
        proof {
            assert(item == before[0]);
            assert(orig.skip(k as int)[0] == before[0]);
            assert(orig.skip(k as int).drop_first() =~= orig.skip(k + 1));
        }
        if item.is_some() {
            return item;
        }
        k = k + 1;
    }
    None
}

} // verus!
