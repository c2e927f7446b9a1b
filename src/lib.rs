//! A small template language: literal text with `{{ ... }}` directives that
//! print values, walk arrays and choose between branches, rendered against a
//! JSON-like context.
//!
//! A template is split into tokens (`lexer`), the tokens are parsed into a
//! program (`parser`, `ast`), and the program is run against a context
//! (`interpreter`, `json`). Each stage is proved to compute the function that
//! its spec counterpart states.
use vstd::prelude::*;

pub mod ast;
pub mod interpreter;
pub mod json;
pub mod laws;
pub mod lexer;
pub mod parser;

use crate::ast::{Statement, stmts_view};
use crate::interpreter::{RuntimeError, run_program, render_program};
use crate::json::{Json, JsonV};
use crate::lexer::{LexError, Token, lex_all, tokenize_chars, tokens_view};
use crate::parser::{ParseError, parse, parse_program};

verus! {

/// The first error that a render met, by stage.
#[derive(Debug, Clone, Copy, PartialEq, Eq)]
pub enum Error {
    Lex(LexError),
    Parse(ParseError),
    Runtime(RuntimeError),
}

/// The output of a template, given as its characters, against a context.
pub open spec fn render_spec(template: Seq<char>, ctx: JsonV) -> Result<Seq<char>, Error> {
    match lex_all(template) {
        Err(e) => Err(Error::Lex(e)),
        Ok(toks) => match parse_program(toks) {
            Err(e) => Err(Error::Parse(e)),
            Ok(prog) => match run_program(prog, ctx) {
                Err(e) => Err(Error::Runtime(e)),
                Ok(out) => Ok(out),
            },
        },
    }
}

/// The characters of a string, in order.
pub(crate) fn chars_of(s: &str) -> (r: Vec<char>)
    ensures
        r@ == s@,
{
    broadcast use vstd::string::axiom_spec_iter;
    let mut r: Vec<char> = Vec::new();
    for c in it: s.chars()
        invariant
            it.seq() == s@,
            r@ == s@.take(it.index() as int),
    {
        assert(s@.take(it.index() + 1) =~= s@.take(it.index() as int).push(c));
        r.push(c);
    }
    assert(r@ =~= s@);
    r
}

/// Relies on `String: FromIterator<&char>`: the string holds the characters
/// in order.
#[verifier::external_body]
pub(crate) fn string_of(v: &Vec<char>) -> (r: String)
    ensures
        r@ == v@,
{
    String::from_iter(v.iter())
}

/// Splits a template into tokens.
pub fn tokenize(source: &str) -> (r: Result<Vec<Token>, LexError>)
    ensures
        match lex_all(source@) {
            Ok(ts) => r is Ok && tokens_view(r->Ok_0@) == ts,
            Err(e) => r == Err::<Vec<Token>, LexError>(e),
        },
{
    let s = chars_of(source);
    tokenize_chars(&s)
}

/// Renders `source` against `context`: the template's text with each
/// directive replaced by what it produces, or the first error met.
pub fn render(source: &str, context: &Json) -> (r: Result<String, Error>)
    ensures
        match render_spec(source@, context@) {
            Ok(out) => r is Ok && r->Ok_0@ == out,
            Err(e) => r == Err::<String, Error>(e),
        },
{
    let toks = match tokenize(source) {
        Ok(t) => t,
        Err(e) => return Err(Error::Lex(e)),
    };
    let prog = match parse(&toks) {
        Ok(p) => p,
        Err(e) => return Err(Error::Parse(e)),
    };
    match render_program(&prog, context) {
        Ok(out) => Ok(out),
        Err(e) => Err(Error::Runtime(e)),
    }
}

/// Renders programs against one context, gathering their output.
pub struct Interperter {
    pub context: Json,
    pub result: String,
}

impl Interperter {
    pub fn new(context: Json) -> (r: Interperter)
        ensures
            r.context == context,
            r.result@ == Seq::<char>::empty(),
    {
        Interperter { context, result: String::new() }
    }

    /// Runs `statements` and appends their output to `result`; on an error
    /// `result` is left as it was.
    pub fn interpret(&mut self, statements: &Vec<Statement>) -> (r: Result<(), RuntimeError>)
        ensures
            final(self).context == old(self).context,
            match run_program(stmts_view(statements@), old(self).context@) {
                Ok(out) => r is Ok && final(self).result@ == old(self).result@ + out,
                Err(e) => r == Err::<(), RuntimeError>(e) && final(self).result@ == old(self).result@,
            },
    {
        let out = render_program(statements, &self.context)?;
        let mut buf = chars_of(self.result.as_str());
        let extra = chars_of(out.as_str());
        crate::interpreter::append_chars(&mut buf, &extra);
        self.result = string_of(&buf);
        Ok(())
    }
}

} // verus!
