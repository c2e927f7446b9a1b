use vstd::prelude::*;
use crate::ast::{ExprV, StmtV};
use crate::interpreter::{Bindings, RuntimeError, eval, lookup, run_stmt};
use crate::json::{Json, JsonV, field_of};
use crate::lexer::{TokenKind, Tokens, ident_len, lex, lex_all, pair_at, text_len, word_kind};
use crate::parser::{parse_block, parse_program};
use crate::{Error, render_spec};

verus! {

proof fn lemma_text_len_all(s: Seq<char>, i: int)
    requires
        0 <= i <= s.len(),
        forall|k: int| !pair_at(s, k, '{', '{'),
    ensures
        text_len(s, i) == s.len() - i,
    decreases s.len() - i,
{
    if i < s.len() {
        lemma_text_len_all(s, i + 1);
    }
}

/// A template with no `{{` in it renders as itself, whatever the context.
pub proof fn lemma_plain_text_round_trip(s: Seq<char>, ctx: JsonV)
    requires
        forall|k: int| !pair_at(s, k, '{', '{'),
    ensures
        render_spec(s, ctx) == Ok::<Seq<char>, Error>(s),
{
    if s.len() == 0 {
        assert(lex_all(s) == Ok::<Tokens, crate::lexer::LexError>(Seq::empty()));
        assert(parse_block(Seq::empty(), 0) == Ok::<(Seq<StmtV>, nat), crate::parser::ParseError>((Seq::empty(), 0)));
        assert(parse_program(Seq::empty()) == Ok::<Seq<StmtV>, crate::parser::ParseError>(Seq::empty()));
        assert(crate::interpreter::run_program(Seq::empty(), ctx) == Ok::<Seq<char>, RuntimeError>(Seq::empty()));
        assert(s =~= Seq::<char>::empty());
    } else {
        lemma_text_len_all(s, 0);
        assert(s.subrange(0, s.len() as int) =~= s);
        let toks: Tokens = seq![(TokenKind::TemplateLiteral, s)];
        assert(lex(s, 0, false) == Ok::<Tokens, crate::lexer::LexError>(toks));
        assert(parse_block(toks, 1) == Ok::<(Seq<StmtV>, nat), crate::parser::ParseError>((Seq::empty(), 0)));
        assert(seq![StmtV::Text(s)] + Seq::<StmtV>::empty() =~= seq![StmtV::Text(s)]);
        assert(parse_program(toks) == Ok::<Seq<StmtV>, crate::parser::ParseError>(seq![StmtV::Text(s)]));
        let prog = seq![StmtV::Text(s)];
        assert(prog[0] == StmtV::Text(s));
        assert(run_stmt(prog[0], ctx, Seq::empty()) == Ok::<Seq<char>, RuntimeError>(s));
        assert(crate::interpreter::run_list(prog, 1, ctx, Seq::empty()) == Ok::<Seq<char>, RuntimeError>(Seq::empty()));
        assert(s + Seq::<char>::empty() =~= s);
        assert(crate::interpreter::run_program(prog, ctx) == Ok::<Seq<char>, RuntimeError>(s));
    }
}

/// A loop over an empty array renders nothing, whatever its body.
pub proof fn lemma_for_over_empty(n: Seq<char>, e: ExprV, body: Seq<StmtV>, ctx: JsonV, binds: Bindings)
    requires
        eval(e, ctx, binds) == Ok::<JsonV, RuntimeError>(JsonV::Array(Seq::empty())),
    ensures
        run_stmt(StmtV::For(n, e, body), ctx, binds) == Ok::<Seq<char>, RuntimeError>(Seq::empty()),
{
}

/// A field missing from an object reads as `null`, which renders as the
/// text `null`.
pub proof fn lemma_missing_field_is_null(
    base: ExprV,
    f: Seq<char>,
    ctx: JsonV,
    binds: Bindings,
    keys: Seq<Seq<char>>,
    values: Seq<JsonV>,
)
    requires
        eval(base, ctx, binds) == Ok::<JsonV, RuntimeError>(JsonV::Object(keys, values)),
        field_of(keys, values, f) is None,
    ensures
        eval(ExprV::PathAccess(Box::new(base), f), ctx, binds) == Ok::<JsonV, RuntimeError>(JsonV::Null),
        run_stmt(StmtV::Output(ExprV::PathAccess(Box::new(base), f)), ctx, binds) == Ok::<Seq<char>, RuntimeError>(
            seq!['n', 'u', 'l', 'l'],
        ),
{
}

/// A field asked of a value that is not an object fails with `NotAnObject`.
pub proof fn lemma_field_of_non_object(base: ExprV, f: Seq<char>, ctx: JsonV, binds: Bindings, v: JsonV)
    requires
        eval(base, ctx, binds) == Ok::<JsonV, RuntimeError>(v),
        !(v is Object),
    ensures
        eval(ExprV::PathAccess(Box::new(base), f), ctx, binds) == Err::<JsonV, RuntimeError>(RuntimeError::NotAnObject),
{
}

proof fn lemma_block_stops_at_end(t: Tokens, p: int, k: int)
    requires
        0 <= p <= k,
        k + 1 < t.len(),
        forall|j: int| p <= j < k ==> t[j].0 == TokenKind::TemplateLiteral,
        t[k].0 == TokenKind::OpenBraces,
        t[k + 1].0 == TokenKind::End,
    ensures
        parse_block(t, p) is Ok,
        parse_block(t, p)->Ok_0.1 == k - p,
    decreases k - p,
{
    if p < k {
        lemma_block_stops_at_end(t, p + 1, k);
    }
}

/// An `{{ end }}` that no `for` or `if` opened, after nothing but text, is
/// refused by the parser, whatever the context: the render fails at the
/// parse stage and never reaches the interpreter.
pub proof fn lemma_unmatched_end_refused(s: Seq<char>, ctx: JsonV, k: int)
    requires
        lex_all(s) is Ok,
        0 <= k,
        k + 1 < lex_all(s)->Ok_0.len(),
        forall|j: int| 0 <= j < k ==> lex_all(s)->Ok_0[j].0 == TokenKind::TemplateLiteral,
        lex_all(s)->Ok_0[k].0 == TokenKind::OpenBraces,
        lex_all(s)->Ok_0[k + 1].0 == TokenKind::End,
    ensures
        parse_program(lex_all(s)->Ok_0) is Err,
        render_spec(s, ctx) is Err,
        render_spec(s, ctx)->Err_0 is Parse,
{
    lemma_block_stops_at_end(lex_all(s)->Ok_0, 0, k);
}

/// The template `{{ end }}` on its own is refused at the parse stage,
/// whatever the context.
pub proof fn lemma_lone_end_refused(ctx: JsonV)
    ensures
        render_spec(seq!['{', '{', ' ', 'e', 'n', 'd', ' ', '}', '}'], ctx) is Err,
        render_spec(seq!['{', '{', ' ', 'e', 'n', 'd', ' ', '}', '}'], ctx)->Err_0 is Parse,
{
    let s: Seq<char> = seq!['{', '{', ' ', 'e', 'n', 'd', ' ', '}', '}'];
    let word = seq!['e', 'n', 'd'];
    assert(text_len(s, 0) == 0);
    assert(ident_len(s, 6) == 0);
    assert(ident_len(s, 5) == 1);
    assert(ident_len(s, 4) == 2);
    assert(s.subrange(3, 6) =~= word);
    assert(word_kind(word) == TokenKind::End);
    assert(lex(s, 9, false) == Ok::<Tokens, crate::lexer::LexError>(Seq::empty()));
    let close: Tokens = seq![(TokenKind::CloseBraces, seq!['}', '}'])];
    assert(close + Seq::<(TokenKind, Seq<char>)>::empty() =~= close);
    assert(lex(s, 7, true) == Ok::<Tokens, crate::lexer::LexError>(close));
    assert(lex(s, 6, true) == Ok::<Tokens, crate::lexer::LexError>(close));
    let end_close: Tokens = seq![(TokenKind::End, word)] + close;
    assert(lex(s, 3, true) == Ok::<Tokens, crate::lexer::LexError>(end_close));
    assert(lex(s, 2, true) == Ok::<Tokens, crate::lexer::LexError>(end_close));
    let toks: Tokens = Seq::<(TokenKind, Seq<char>)>::empty().push((TokenKind::OpenBraces, seq!['{', '{'])) + end_close;
    assert(lex(s, 0, false) == Ok::<Tokens, crate::lexer::LexError>(toks));
    assert(toks.len() == 3);
    assert(toks[0].0 == TokenKind::OpenBraces);
    assert(toks[1].0 == TokenKind::End);
    lemma_unmatched_end_refused(s, ctx, 0);
}

/// A loop binding is seen by its own name inside the body, shadowing any
/// outer binding of it, and hides no other name.
pub proof fn lemma_loop_binding_scope(ctx: JsonV, binds: Bindings, n: Seq<char>, v: JsonV, m: Seq<char>)
    ensures
        lookup(ctx, binds.push((n, v)), n) == Some(v),
        m != n ==> lookup(ctx, binds.push((n, v)), m) == lookup(ctx, binds, m),
{
    assert(binds.push((n, v)).drop_last() =~= binds);
}

/// Rendering depends on the template's text and the context's value alone:
/// two renders of equal inputs give equal results.
pub proof fn lemma_render_deterministic(source1: &str, source2: &str, ctx1: &Json, ctx2: &Json)
    requires
        source1@ == source2@,
        ctx1@ == ctx2@,
    ensures
        render_spec(source1@, ctx1@) == render_spec(source2@, ctx2@),
{
}

} // verus!
