use vstd::prelude::*;
use crate::ast::{Expression, Statement, ExprV, StmtV, stmts_view};
use crate::lexer::{Token, TokenKind, Tokens, tokens_view, slice_chars};

verus! {

/// A grammar violation: the token that was expected (`None` where an
/// expression or a statement was), and the one that was found (`None` at the
/// end of the input).
#[derive(Debug, Clone, Copy, PartialEq, Eq)]
pub struct ParseError {
    pub expected: Option<TokenKind>,
    pub found: Option<TokenKind>,
}

/// The kind of the token at `p`, if there is one.
pub open spec fn kind_at(t: Tokens, p: int) -> Option<TokenKind> {
    if 0 <= p < t.len() {
        Some(t[p].0)
    } else {
        None
    }
}

pub open spec fn perr(t: Tokens, p: int, expected: Option<TokenKind>) -> ParseError {
    ParseError { expected, found: kind_at(t, p) }
}

/// A parse result: a value and the number of tokens it took.
pub type Parsed<T> = Result<(T, nat), ParseError>;

/// The rest of a dotted path after `base`, from `p` on.
pub open spec fn path_tail(t: Tokens, p: int, base: ExprV) -> Parsed<ExprV>
    decreases if p < t.len() { t.len() - p } else { 0 },
{
    if p >= 0 && kind_at(t, p) == Some(TokenKind::Dot) {
        if kind_at(t, p + 1) == Some(TokenKind::Identifier) {
            match path_tail(t, p + 2, ExprV::PathAccess(Box::new(base), t[p + 1].1)) {
                Ok((e, n)) => Ok((e, n + 2)),
                Err(err) => Err(err),
            }
        } else {
            Err(perr(t, p + 1, Some(TokenKind::Identifier)))
        }
    } else {
        Ok((base, 0))
    }
}

/// `path := identifier ('.' identifier)* | string-literal`
#[verifier::opaque]
pub open spec fn parse_path(t: Tokens, p: int) -> Parsed<ExprV> {
    match kind_at(t, p) {
        Some(TokenKind::StringLiteral) => Ok((ExprV::StringLiteral(t[p].1), 1)),
        Some(TokenKind::Identifier) => match path_tail(t, p + 1, ExprV::Variable(t[p].1)) {
            Ok((e, n)) => Ok((e, n + 1)),
            Err(err) => Err(err),
        },
        _ => Err(perr(t, p, None)),
    }
}

/// `unary := '!'? path`
pub open spec fn parse_unary(t: Tokens, p: int) -> Parsed<ExprV> {
    if kind_at(t, p) == Some(TokenKind::Not) {
        match parse_path(t, p + 1) {
            Ok((e, n)) => Ok((ExprV::Not(Box::new(e)), n + 1)),
            Err(err) => Err(err),
        }
    } else {
        parse_path(t, p)
    }
}

/// `equality := unary (('==' | '!=') unary)?`
pub open spec fn parse_equality(t: Tokens, p: int) -> Parsed<ExprV> {
    match parse_unary(t, p) {
        Ok((l, n)) => {
            let k = kind_at(t, p + n);
            if k == Some(TokenKind::Equals) || k == Some(TokenKind::NotEquals) {
                match parse_unary(t, p + n + 1) {
                    Ok((r, m)) => Ok(
                        (
                            if k == Some(TokenKind::Equals) {
                                ExprV::Equals(Box::new(l), Box::new(r))
                            } else {
                                ExprV::NotEquals(Box::new(l), Box::new(r))
                            },
                            n + 1 + m,
                        ),
                    ),
                    Err(err) => Err(err),
                }
            } else {
                Ok((l, n))
            }
        },
        Err(err) => Err(err),
    }
}

/// The `('&&' equality)*` part of a conjunction whose left part is `l`.
pub open spec fn and_tail(t: Tokens, p: int, l: ExprV) -> Parsed<ExprV>
    decreases if p < t.len() { t.len() - p } else { 0 },
{
    if p >= 0 && kind_at(t, p) == Some(TokenKind::And) {
        match parse_equality(t, p + 1) {
            Ok((r, m)) => match and_tail(t, p + 1 + m, ExprV::And(Box::new(l), Box::new(r))) {
                Ok((e, k)) => Ok((e, 1 + m + k)),
                Err(err) => Err(err),
            },
            Err(err) => Err(err),
        }
    } else {
        Ok((l, 0))
    }
}

/// `and := equality ('&&' equality)*`
pub open spec fn parse_and(t: Tokens, p: int) -> Parsed<ExprV> {
    match parse_equality(t, p) {
        Ok((l, n)) => match and_tail(t, p + n, l) {
            Ok((e, k)) => Ok((e, n + k)),
            Err(err) => Err(err),
        },
        Err(err) => Err(err),
    }
}

/// The `('||' and)*` part of a disjunction whose left part is `l`.
pub open spec fn or_tail(t: Tokens, p: int, l: ExprV) -> Parsed<ExprV>
    decreases if p < t.len() { t.len() - p } else { 0 },
{
    if p >= 0 && kind_at(t, p) == Some(TokenKind::Or) {
        match parse_and(t, p + 1) {
            Ok((r, m)) => match or_tail(t, p + 1 + m, ExprV::Or(Box::new(l), Box::new(r))) {
                Ok((e, k)) => Ok((e, 1 + m + k)),
                Err(err) => Err(err),
            },
            Err(err) => Err(err),
        }
    } else {
        Ok((l, 0))
    }
}

/// `or := and ('||' and)*`, the full expression grammar.
#[verifier::opaque]
pub open spec fn parse_or(t: Tokens, p: int) -> Parsed<ExprV> {
    match parse_and(t, p) {
        Ok((l, n)) => match or_tail(t, p + n, l) {
            Ok((e, k)) => Ok((e, n + k)),
            Err(err) => Err(err),
        },
        Err(err) => Err(err),
    }
}

/// Whether the three tokens at `p` are `{{`, `k`, `}}`.
pub open spec fn tag_at(t: Tokens, p: int, k: TokenKind) -> bool {
    kind_at(t, p) == Some(TokenKind::OpenBraces) && kind_at(t, p + 1) == Some(k) && kind_at(t, p + 2)
        == Some(TokenKind::CloseBraces)
}

/// The error for a missing `{{ k }}` tag at `p`.
pub open spec fn tag_err(t: Tokens, p: int, k: TokenKind) -> ParseError {
    if kind_at(t, p) != Some(TokenKind::OpenBraces) {
        perr(t, p, Some(TokenKind::OpenBraces))
    } else if kind_at(t, p + 1) != Some(k) {
        perr(t, p + 1, Some(k))
    } else {
        perr(t, p + 2, Some(TokenKind::CloseBraces))
    }
}

/// `s`, which took `n` tokens from `p`, followed by the block from `p + n`.
pub open spec fn cons_block(s: StmtV, n: nat, rest: Parsed<Seq<StmtV>>) -> Parsed<Seq<StmtV>> {
    match rest {
        Ok((ss, m)) => Ok((seq![s] + ss, n + m)),
        Err(err) => Err(err),
    }
}

/// The statements from `p` up to the end of the tokens or to a `{{ end }}`
/// or `{{ else }}` of the enclosing block, which is not taken.
pub open spec fn parse_block(t: Tokens, p: int) -> Parsed<Seq<StmtV>>
    decreases if p < t.len() { t.len() - p } else { 0 },
{
    if p < 0 || p >= t.len() {
        Ok((Seq::empty(), 0))
    } else if kind_at(t, p) == Some(TokenKind::TemplateLiteral) {
        cons_block(StmtV::Text(t[p].1), 1, parse_block(t, p + 1))
    } else if kind_at(t, p) != Some(TokenKind::OpenBraces) {
        Err(perr(t, p, None))
    } else if kind_at(t, p + 1) == Some(TokenKind::End) || kind_at(t, p + 1) == Some(TokenKind::Else) {
        Ok((Seq::empty(), 0))
    } else if kind_at(t, p + 1) == Some(TokenKind::For) {
        if kind_at(t, p + 2) != Some(TokenKind::Identifier) {
            Err(perr(t, p + 2, Some(TokenKind::Identifier)))
        } else if kind_at(t, p + 3) != Some(TokenKind::In) {
            Err(perr(t, p + 3, Some(TokenKind::In)))
        } else {
            match parse_path(t, p + 4) {
                Err(err) => Err(err),
                Ok((e, n)) => if kind_at(t, p + 4 + n) != Some(TokenKind::CloseBraces) {
                    Err(perr(t, p + 4 + n, Some(TokenKind::CloseBraces)))
                } else {
                    match parse_block(t, p + 5 + n) {
                        Err(err) => Err(err),
                        Ok((body, m)) => if !tag_at(t, p + 5 + n + m, TokenKind::End) {
                            Err(tag_err(t, p + 5 + n + m, TokenKind::End))
                        } else {
                            cons_block(
                                StmtV::For(t[p + 2].1, e, body),
                                8 + n + m,
                                parse_block(t, p + 8 + n + m),
                            )
                        },
                    }
                },
            }
        }
    } else if kind_at(t, p + 1) == Some(TokenKind::If) {
        match parse_or(t, p + 2) {
            Err(err) => Err(err),
            Ok((c, n)) => if kind_at(t, p + 2 + n) != Some(TokenKind::CloseBraces) {
                Err(perr(t, p + 2 + n, Some(TokenKind::CloseBraces)))
            } else {
                match parse_block(t, p + 3 + n) {
                    Err(err) => Err(err),
                    Ok((tb, m)) => if tag_at(t, p + 3 + n + m, TokenKind::Else) {
                        match parse_block(t, p + 6 + n + m) {
                            Err(err) => Err(err),
                            Ok((eb, k)) => if !tag_at(t, p + 6 + n + m + k, TokenKind::End) {
                                Err(tag_err(t, p + 6 + n + m + k, TokenKind::End))
                            } else {
                                cons_block(
                                    StmtV::If(c, tb, Some(eb)),
                                    9 + n + m + k,
                                    parse_block(t, p + 9 + n + m + k),
                                )
                            },
                        }
                    } else if !tag_at(t, p + 3 + n + m, TokenKind::End) {
                        Err(tag_err(t, p + 3 + n + m, TokenKind::End))
                    } else {
                        cons_block(StmtV::If(c, tb, None), 6 + n + m, parse_block(t, p + 6 + n + m))
                    },
                }
            },
        }
    } else {
        match parse_or(t, p + 1) {
            Err(err) => Err(err),
            Ok((e, n)) => if kind_at(t, p + 1 + n) != Some(TokenKind::CloseBraces) {
                Err(perr(t, p + 1 + n, Some(TokenKind::CloseBraces)))
            } else {
                cons_block(StmtV::Output(e), 2 + n, parse_block(t, p + 2 + n))
            },
        }
    }
}

/// The program of a whole token sequence: a block that takes every token.
pub open spec fn parse_program(t: Tokens) -> Result<Seq<StmtV>, ParseError> {
    match parse_block(t, 0) {
        Ok((ss, n)) => if n >= t.len() {
            Ok(ss)
        } else {
            Err(perr(t, n + 1int, None))
        },
        Err(err) => Err(err),
    }
}

} // verus!

verus! {

/// Whether an executable parse result agrees with the grammar's, for a
/// parse that started at `p`.
pub open spec fn expr_agrees(r: Result<(Expression, usize), ParseError>, s: Parsed<ExprV>, p: int) -> bool {
    match s {
        Ok((e, n)) => r is Ok && r->Ok_0.0@ == e && r->Ok_0.1 == p + n,
        Err(err) => r == Err::<(Expression, usize), ParseError>(err),
    }
}

pub open spec fn block_agrees(r: Result<(Vec<Statement>, usize), ParseError>, s: Parsed<Seq<StmtV>>, p: int) -> bool {
    match s {
        Ok((ss, n)) => r is Ok && stmts_view(r->Ok_0.0@) == ss && r->Ok_0.1 == p + n,
        Err(err) => r == Err::<(Vec<Statement>, usize), ParseError>(err),
    }
}

fn kind_of(t: &Vec<Token>, p: usize) -> (r: Option<TokenKind>)
    ensures
        r == kind_at(tokens_view(t@), p as int),
{
    if p < t.len() {
        Some(t[p].kind)
    } else {
        None
    }
}

fn error_at(t: &Vec<Token>, p: usize, expected: Option<TokenKind>) -> (r: ParseError)
    ensures
        r == perr(tokens_view(t@), p as int, expected),
{
    ParseError { expected, found: kind_of(t, p) }
}

fn text_of_token(t: &Vec<Token>, p: usize) -> (r: Vec<char>)
    requires
        p < t.len(),
    ensures
        r@ == tokens_view(t@)[p as int].1,
{
    let r = slice_chars(&t[p].text, 0, t[p].text.len());
    assert(t[p as int].text@.subrange(0, t[p as int].text@.len() as int) =~= t[p as int].text@);
    r
}

fn exec_path_tail(t: &Vec<Token>, p: usize, base: Expression) -> (r: Result<(Expression, usize), ParseError>)
    requires
        p <= t.len(),
    ensures
        expr_agrees(r, path_tail(tokens_view(t@), p as int, base@), p as int),
        r is Ok ==> r->Ok_0.1 <= t.len(),
    decreases t.len() - p,
{
    if kind_of(t, p) == Some(TokenKind::Dot) {
        if kind_of(t, p + 1) == Some(TokenKind::Identifier) {
            let f = text_of_token(t, p + 1);
            let e = Expression::PathAccess(Box::new(base), f);
            exec_path_tail(t, p + 2, e)
        } else {
            Err(error_at(t, p + 1, Some(TokenKind::Identifier)))
        }
    } else {
        Ok((base, p))
    }
}

fn exec_path(t: &Vec<Token>, p: usize) -> (r: Result<(Expression, usize), ParseError>)
    requires
        p <= t.len(),
    ensures
        expr_agrees(r, parse_path(tokens_view(t@), p as int), p as int),
        r is Ok ==> r->Ok_0.1 <= t.len(),
{
    reveal(parse_path);
    match kind_of(t, p) {
        Some(TokenKind::StringLiteral) => Ok((Expression::StringLiteral(text_of_token(t, p)), p + 1)),
        Some(TokenKind::Identifier) => {
            let v = Expression::Variable(text_of_token(t, p));
            exec_path_tail(t, p + 1, v)
        },
        _ => Err(error_at(t, p, None)),
    }
}

fn exec_unary(t: &Vec<Token>, p: usize) -> (r: Result<(Expression, usize), ParseError>)
    requires
        p <= t.len(),
    ensures
        expr_agrees(r, parse_unary(tokens_view(t@), p as int), p as int),
        r is Ok ==> r->Ok_0.1 <= t.len(),
{
    if kind_of(t, p) == Some(TokenKind::Not) {
        let (e, q) = exec_path(t, p + 1)?;
        Ok((Expression::Not(Box::new(e)), q))
    } else {
        exec_path(t, p)
    }
}

fn exec_equality(t: &Vec<Token>, p: usize) -> (r: Result<(Expression, usize), ParseError>)
    requires
        p <= t.len(),
    ensures
        expr_agrees(r, parse_equality(tokens_view(t@), p as int), p as int),
        r is Ok ==> r->Ok_0.1 <= t.len(),
{
    let (l, q) = exec_unary(t, p)?;
    let k = kind_of(t, q);
    if k == Some(TokenKind::Equals) {
        let (r, q2) = exec_unary(t, q + 1)?;
        Ok((Expression::Equals(Box::new(l), Box::new(r)), q2))
    } else if k == Some(TokenKind::NotEquals) {
        let (r, q2) = exec_unary(t, q + 1)?;
        Ok((Expression::NotEquals(Box::new(l), Box::new(r)), q2))
    } else {
        Ok((l, q))
    }
}

fn exec_and_tail(t: &Vec<Token>, p: usize, l: Expression) -> (r: Result<(Expression, usize), ParseError>)
    requires
        p <= t.len(),
    ensures
        expr_agrees(r, and_tail(tokens_view(t@), p as int, l@), p as int),
        r is Ok ==> r->Ok_0.1 <= t.len(),
    decreases t.len() - p,
{
    if kind_of(t, p) == Some(TokenKind::And) {
        let (r, q) = exec_equality(t, p + 1)?;
        exec_and_tail(t, q, Expression::And(Box::new(l), Box::new(r)))
    } else {
        Ok((l, p))
    }
}

fn exec_and(t: &Vec<Token>, p: usize) -> (r: Result<(Expression, usize), ParseError>)
    requires
        p <= t.len(),
    ensures
        expr_agrees(r, parse_and(tokens_view(t@), p as int), p as int),
        r is Ok ==> r->Ok_0.1 <= t.len(),
{
    let (l, q) = exec_equality(t, p)?;
    exec_and_tail(t, q, l)
}

fn exec_or_tail(t: &Vec<Token>, p: usize, l: Expression) -> (r: Result<(Expression, usize), ParseError>)
    requires
        p <= t.len(),
    ensures
        expr_agrees(r, or_tail(tokens_view(t@), p as int, l@), p as int),
        r is Ok ==> r->Ok_0.1 <= t.len(),
    decreases t.len() - p,
{
    if kind_of(t, p) == Some(TokenKind::Or) {
        let (r, q) = exec_and(t, p + 1)?;
        exec_or_tail(t, q, Expression::Or(Box::new(l), Box::new(r)))
    } else {
        Ok((l, p))
    }
}

/// Parses an expression that starts at token `p`.
pub fn parse_expression(t: &Vec<Token>, p: usize) -> (r: Result<(Expression, usize), ParseError>)
    requires
        p <= t.len(),
    ensures
        expr_agrees(r, parse_or(tokens_view(t@), p as int), p as int),
        r is Ok ==> r->Ok_0.1 <= t.len(),
{
    reveal(parse_or);
    let (l, q) = exec_and(t, p)?;
    exec_or_tail(t, q, l)
}

} // verus!

verus! {

fn has_tag(t: &Vec<Token>, p: usize, k: TokenKind) -> (r: bool)
    ensures
        r == tag_at(tokens_view(t@), p as int, k),
{
    kind_of(t, p) == Some(TokenKind::OpenBraces) && p < t.len() && kind_of(t, p + 1) == Some(k) && kind_of(t, p + 2) == Some(TokenKind::CloseBraces)
}

fn tag_error(t: &Vec<Token>, p: usize, k: TokenKind) -> (r: ParseError)
    requires
        p <= t.len(),
    ensures
        r == tag_err(tokens_view(t@), p as int, k),
{
    if kind_of(t, p) != Some(TokenKind::OpenBraces) {
        error_at(t, p, Some(TokenKind::OpenBraces))
    } else if kind_of(t, p + 1) != Some(k) {
        error_at(t, p + 1, Some(k))
    } else {
        error_at(t, p + 2, Some(TokenKind::CloseBraces))
    }
}

/// Puts `s` before the statements of a block parsed after it.
fn cons_exec(s: Statement, rest: Result<(Vec<Statement>, usize), ParseError>) -> (r: Result<(Vec<Statement>, usize), ParseError>)
    ensures
        match rest {
            Ok((ss, q)) => r is Ok && stmts_view(r->Ok_0.0@) == seq![s@] + stmts_view(ss@) && r->Ok_0.1 == q,
            Err(err) => r == Err::<(Vec<Statement>, usize), ParseError>(err),
        },
{
    let (mut ss, q) = rest?;
    let ghost old_ss = ss@;
    ss.insert(0, s);
    assert(stmts_view(ss@) =~= seq![s@] + stmts_view(old_ss));
    Ok((ss, q))
}

/// Parses the statements from token `p` up to the end of the tokens or to a
/// `{{ end }}` or `{{ else }}` of the enclosing block, which is not taken.
pub fn parse_statements(t: &Vec<Token>, p: usize) -> (r: Result<(Vec<Statement>, usize), ParseError>)
    requires
        p <= t.len(),
    ensures
        block_agrees(r, parse_block(tokens_view(t@), p as int), p as int),
        r is Ok ==> r->Ok_0.1 <= t.len(),
    decreases t.len() - p, 1int,
{
    if p >= t.len() {
        let v: Vec<Statement> = Vec::new();
        assert(stmts_view(v@) =~= Seq::<StmtV>::empty());
        return Ok((v, p));
    }
    let k = t[p].kind;
    if k == TokenKind::TemplateLiteral {
        let s = Statement::Text(text_of_token(t, p));
        return cons_exec(s, parse_statements(t, p + 1));
    }
    if k != TokenKind::OpenBraces {
        return Err(error_at(t, p, None));
    }
    let k1 = kind_of(t, p + 1);
    if k1 == Some(TokenKind::End) || k1 == Some(TokenKind::Else) {
        let v: Vec<Statement> = Vec::new();
        assert(stmts_view(v@) =~= Seq::<StmtV>::empty());
        return Ok((v, p));
    }
    if k1 == Some(TokenKind::For) {
        return parse_for(t, p);
    }
    if k1 == Some(TokenKind::If) {
        return parse_if(t, p);
    }
    let (e, q) = parse_expression(t, p + 1)?;
    if kind_of(t, q) != Some(TokenKind::CloseBraces) {
        return Err(error_at(t, q, Some(TokenKind::CloseBraces)));
    }
    cons_exec(Statement::Output(e), parse_statements(t, q + 1))
}

/// Parses a block that starts with a `{{ for .. }}` at `p`.
fn parse_for(t: &Vec<Token>, p: usize) -> (r: Result<(Vec<Statement>, usize), ParseError>)
    requires
        p < t.len(),
        kind_at(tokens_view(t@), p as int) == Some(TokenKind::OpenBraces),
        kind_at(tokens_view(t@), p + 1) == Some(TokenKind::For),
    ensures
        block_agrees(r, parse_block(tokens_view(t@), p as int), p as int),
        r is Ok ==> r->Ok_0.1 <= t.len(),
    decreases t.len() - p, 0int,
{
    if kind_of(t, p + 2) != Some(TokenKind::Identifier) {
        return Err(error_at(t, p + 2, Some(TokenKind::Identifier)));
    }
    if kind_of(t, p + 3) != Some(TokenKind::In) {
        return Err(error_at(t, p + 3, Some(TokenKind::In)));
    }
    let name = text_of_token(t, p + 2);
    let (e, q) = exec_path(t, p + 4)?;
    if kind_of(t, q) != Some(TokenKind::CloseBraces) {
        return Err(error_at(t, q, Some(TokenKind::CloseBraces)));
    }
    let (body, b) = parse_statements(t, q + 1)?;
    if !has_tag(t, b, TokenKind::End) {
        return Err(tag_error(t, b, TokenKind::End));
    }
    let s = Statement::For(name, e, body);
    assert(s@ == StmtV::For(name@, e@, crate::ast::body_view(&body)));
    assert(crate::ast::body_view(&body) =~= stmts_view(body@));
    cons_exec(s, parse_statements(t, b + 3))
}

/// Parses a block that starts with a `{{ if .. }}` at `p`.
fn parse_if(t: &Vec<Token>, p: usize) -> (r: Result<(Vec<Statement>, usize), ParseError>)
    requires
        p < t.len(),
        kind_at(tokens_view(t@), p as int) == Some(TokenKind::OpenBraces),
        kind_at(tokens_view(t@), p + 1) == Some(TokenKind::If),
    ensures
        block_agrees(r, parse_block(tokens_view(t@), p as int), p as int),
        r is Ok ==> r->Ok_0.1 <= t.len(),
    decreases t.len() - p, 0int,
{
    let (c, q) = parse_expression(t, p + 2)?;
    if kind_of(t, q) != Some(TokenKind::CloseBraces) {
        return Err(error_at(t, q, Some(TokenKind::CloseBraces)));
    }
    let (then_body, b) = parse_statements(t, q + 1)?;
    assert(crate::ast::body_view(&then_body) =~= stmts_view(then_body@));
    if has_tag(t, b, TokenKind::Else) {
        let (else_body, b2) = parse_statements(t, b + 3)?;
        if !has_tag(t, b2, TokenKind::End) {
            return Err(tag_error(t, b2, TokenKind::End));
        }
        assert(crate::ast::body_view(&else_body) =~= stmts_view(else_body@));
        let s = Statement::If(c, then_body, Some(else_body));
        assert(s@ == StmtV::If(c@, crate::ast::body_view(&then_body), Some(crate::ast::body_view(&else_body))));
        return cons_exec(s, parse_statements(t, b2 + 3));
    }
    if !has_tag(t, b, TokenKind::End) {
        return Err(tag_error(t, b, TokenKind::End));
    }
    let s = Statement::If(c, then_body, None);
    assert(s@ == StmtV::If(c@, crate::ast::body_view(&then_body), None));
    cons_exec(s, parse_statements(t, b + 3))
}

/// Parses a whole token sequence into a program.
pub fn parse(t: &Vec<Token>) -> (r: Result<Vec<Statement>, ParseError>)
    ensures
        match parse_program(tokens_view(t@)) {
            Ok(ss) => r is Ok && stmts_view(r->Ok_0@) == ss,
            Err(err) => r == Err::<Vec<Statement>, ParseError>(err),
        },
{
    let (ss, q) = parse_statements(t, 0)?;
    if q >= t.len() {
        Ok(ss)
    } else {
        Err(error_at(t, q + 1, None))
    }
}

} // verus!
