use vstd::prelude::*;
use crate::ast::{Expression, Statement, ExprV, StmtV, stmts_view};
use crate::json::{Json, JsonV, field_of, find_member, json_equal, chars_eq, json_eq};

verus! {

/// What can go wrong while a program is rendered.
#[derive(Debug, Clone, Copy, PartialEq, Eq, Structural)]
pub enum RuntimeError {
    /// A variable is bound neither by a loop nor by the context.
    UndefinedName,
    /// A field was asked of a value that is not an object.
    NotAnObject,
    /// A loop was asked to walk a value that is not an array.
    NotAnArray,
    /// A condition or an operand of a logical operator is not a boolean.
    NotABoolean,
    /// An array or an object was to be emitted as text.
    NotRenderable,
}

/// Loop bindings, innermost last, as name and value.
pub type Bindings = Seq<(Seq<char>, JsonV)>;

/// The value of `name`: the innermost loop binding of it, else the
/// context's field of that name.
pub open spec fn lookup(ctx: JsonV, binds: Bindings, name: Seq<char>) -> Option<JsonV>
    decreases binds.len(),
{
    if binds.len() == 0 {
        match ctx {
            JsonV::Object(keys, values) => field_of(keys, values, name),
            _ => None,
        }
    } else if binds.last().0 == name {
        Some(binds.last().1)
    } else {
        lookup(ctx, binds.drop_last(), name)
    }
}

/// The boolean held by `v`, or the error for a non-boolean.
pub open spec fn as_bool(v: JsonV) -> Result<bool, RuntimeError> {
    match v {
        JsonV::Bool(b) => Ok(b),
        _ => Err(RuntimeError::NotABoolean),
    }
}

/// The value of an expression.
pub open spec fn eval(e: ExprV, ctx: JsonV, binds: Bindings) -> Result<JsonV, RuntimeError>
    decreases e,
{
    match e {
        ExprV::StringLiteral(s) => Ok(JsonV::Str(s)),
        ExprV::Variable(n) => match lookup(ctx, binds, n) {
            Some(v) => Ok(v),
            None => Err(RuntimeError::UndefinedName),
        },
        ExprV::PathAccess(base, f) => match eval(*base, ctx, binds) {
            Ok(JsonV::Object(keys, values)) => match field_of(keys, values, f) {
                Some(v) => Ok(v),
                None => Ok(JsonV::Null),
            },
            Ok(_) => Err(RuntimeError::NotAnObject),
            Err(err) => Err(err),
        },
        ExprV::Not(inner) => match eval(*inner, ctx, binds) {
            Ok(v) => match as_bool(v) {
                Ok(b) => Ok(JsonV::Bool(!b)),
                Err(err) => Err(err),
            },
            Err(err) => Err(err),
        },
        ExprV::Equals(l, r) => match (eval(*l, ctx, binds), eval(*r, ctx, binds)) {
            (Err(err), _) => Err(err),
            (Ok(_), Err(err)) => Err(err),
            (Ok(a), Ok(b)) => Ok(JsonV::Bool(json_equal(a, b))),
        },
        ExprV::NotEquals(l, r) => match (eval(*l, ctx, binds), eval(*r, ctx, binds)) {
            (Err(err), _) => Err(err),
            (Ok(_), Err(err)) => Err(err),
            (Ok(a), Ok(b)) => Ok(JsonV::Bool(!json_equal(a, b))),
        },
        ExprV::And(l, r) => match eval(*l, ctx, binds) {
            Err(err) => Err(err),
            Ok(a) => match as_bool(a) {
                Err(err) => Err(err),
                Ok(false) => Ok(JsonV::Bool(false)),
                Ok(true) => match eval(*r, ctx, binds) {
                    Err(err) => Err(err),
                    Ok(b) => match as_bool(b) {
                        Err(err) => Err(err),
                        Ok(x) => Ok(JsonV::Bool(x)),
                    },
                },
            },
        },
        ExprV::Or(l, r) => match eval(*l, ctx, binds) {
            Err(err) => Err(err),
            Ok(a) => match as_bool(a) {
                Err(err) => Err(err),
                Ok(true) => Ok(JsonV::Bool(true)),
                Ok(false) => match eval(*r, ctx, binds) {
                    Err(err) => Err(err),
                    Ok(b) => match as_bool(b) {
                        Err(err) => Err(err),
                        Ok(x) => Ok(JsonV::Bool(x)),
                    },
                },
            },
        },
    }
}

/// The text that a value is emitted as.
pub open spec fn text_of(v: JsonV) -> Result<Seq<char>, RuntimeError> {
    match v {
        JsonV::Str(s) => Ok(s),
        JsonV::Number(n) => Ok(n),
        JsonV::Bool(true) => Ok(seq!['t', 'r', 'u', 'e']),
        JsonV::Bool(false) => Ok(seq!['f', 'a', 'l', 's', 'e']),
        JsonV::Null => Ok(seq!['n', 'u', 'l', 'l']),
        _ => Err(RuntimeError::NotRenderable),
    }
}

/// `r` with `prefix` put before the text it holds.
pub open spec fn after(prefix: Seq<char>, r: Result<Seq<char>, RuntimeError>) -> Result<Seq<char>, RuntimeError> {
    match r {
        Ok(t) => Ok(prefix + t),
        Err(err) => Err(err),
    }
}

/// The output of one statement.
pub open spec fn run_stmt(s: StmtV, ctx: JsonV, binds: Bindings) -> Result<Seq<char>, RuntimeError>
    decreases s, 0int, 0int,
{
    match s {
        StmtV::Text(t) => Ok(t),
        StmtV::Output(e) => match eval(e, ctx, binds) {
            Ok(v) => text_of(v),
            Err(err) => Err(err),
        },
        StmtV::For(n, e, body) => match eval(e, ctx, binds) {
            Ok(JsonV::Array(items)) => run_loop(body, n, items, 0, ctx, binds),
            Ok(_) => Err(RuntimeError::NotAnArray),
            Err(err) => Err(err),
        },
        StmtV::If(c, then_body, else_body) => match eval(c, ctx, binds) {
            Ok(v) => match as_bool(v) {
                Ok(true) => run_list(then_body, 0, ctx, binds),
                Ok(false) => match else_body {
                    Some(eb) => run_list(eb, 0, ctx, binds),
                    None => Ok(Seq::empty()),
                },
                Err(err) => Err(err),
            },
            Err(err) => Err(err),
        },
    }
}

/// The output of the statements of `ss` from `i` on.
pub open spec fn run_list(ss: Seq<StmtV>, i: int, ctx: JsonV, binds: Bindings) -> Result<Seq<char>, RuntimeError>
    decreases ss, 0int, ss.len() - i,
{
    if i < 0 || i >= ss.len() {
        Ok(Seq::empty())
    } else {
        match run_stmt(ss[i], ctx, binds) {
            Ok(t) => after(t, run_list(ss, i + 1, ctx, binds)),
            Err(err) => Err(err),
        }
    }
}

/// The output of a loop body run once for each of `items` from `k` on, with
/// `n` bound to the item.
pub open spec fn run_loop(
    body: Seq<StmtV>,
    n: Seq<char>,
    items: Seq<JsonV>,
    k: int,
    ctx: JsonV,
    binds: Bindings,
) -> Result<Seq<char>, RuntimeError>
    decreases body, 1int, items.len() - k,
{
    if k < 0 || k >= items.len() {
        Ok(Seq::empty())
    } else {
        match run_list(body, 0, ctx, binds.push((n, items[k]))) {
            Ok(t) => after(t, run_loop(body, n, items, k + 1, ctx, binds)),
            Err(err) => Err(err),
        }
    }
}

/// The output of a whole program against a context.
pub open spec fn run_program(prog: Seq<StmtV>, ctx: JsonV) -> Result<Seq<char>, RuntimeError> {
    run_list(prog, 0, ctx, Seq::empty())
}

} // verus!

verus! {

/// A value met during evaluation: a part of the context, or one made by the
/// evaluation itself.
pub enum Val<'a> {
    Ref(&'a Json),
    Null,
    Bool(bool),
    Str(&'a Vec<char>),
}

impl<'a> View for Val<'a> {
    type V = JsonV;

    open spec fn view(&self) -> JsonV {
        match self {
            Val::Ref(j) => j@,
            Val::Null => JsonV::Null,
            Val::Bool(b) => JsonV::Bool(*b),
            Val::Str(s) => JsonV::Str(s@),
        }
    }
}

/// The model of the loop bindings held while a program runs.
pub open spec fn binds_view<'a>(b: Seq<(&'a Vec<char>, &'a Json)>) -> Bindings {
    Seq::new(b.len(), |i: int| (b[i].0@, b[i].1@))
}

pub open spec fn val_result<'a>(r: Result<Val<'a>, RuntimeError>) -> Result<JsonV, RuntimeError> {
    match r {
        Ok(v) => Ok(v@),
        Err(err) => Err(err),
    }
}

pub open spec fn items_view(items: Seq<Json>) -> Seq<JsonV> {
    Seq::new(items.len(), |i: int| items[i]@)
}

proof fn lemma_after_after(a: Seq<char>, b: Seq<char>, r: Result<Seq<char>, RuntimeError>)
    ensures
        after(a, after(b, r)) == after(a + b, r),
{
    if let Ok(t) = r {
        assert(a + (b + t) =~= (a + b) + t);
    }
}

/// The value bound to `name`.
fn lookup_var<'a>(ctx: &'a Json, binds: &Vec<(&'a Vec<char>, &'a Json)>, name: &Vec<char>) -> (r: Option<&'a Json>)
    ensures
        match r {
            Some(v) => lookup(ctx@, binds_view(binds@), name@) == Some(v@),
            None => lookup(ctx@, binds_view(binds@), name@) is None,
        },
{
    let ghost bv = binds_view(binds@);
    let mut i: usize = binds.len();
    assert(bv.subrange(0, i as int) =~= bv);
    while i > 0
        invariant
            i <= binds.len(),
            bv == binds_view(binds@),
            lookup(ctx@, bv, name@) == lookup(ctx@, bv.subrange(0, i as int), name@),
        decreases i,
    {
        let ghost sub = bv.subrange(0, i as int);
        assert(sub.drop_last() =~= bv.subrange(0, i - 1));
        assert(sub.last() == (binds[i - 1].0@, binds[i - 1].1@));
        if chars_eq(binds[i - 1].0, name) {
            return Some(binds[i - 1].1);
        }
        i = i - 1;
    }
    assert(bv.subrange(0, 0).len() == 0);
    match ctx {
        Json::Object(members) => find_member(members, name),
        _ => None,
    }
}

/// The boolean held by `v`.
fn val_bool<'a>(v: Val<'a>) -> (r: Result<bool, RuntimeError>)
    ensures
        r == as_bool(v@),
{
    match v {
        Val::Bool(b) => Ok(b),
        Val::Ref(j) => match j {
            Json::Bool(b) => Ok(*b),
            _ => Err(RuntimeError::NotABoolean),
        },
        _ => Err(RuntimeError::NotABoolean),
    }
}

/// Deep structural equality of two values met during evaluation.
fn val_eq<'a>(a: &Val<'a>, b: &Val<'a>) -> (r: bool)
    ensures
        r == json_equal(a@, b@),
{
    match (a, b) {
        (Val::Ref(x), Val::Ref(y)) => json_eq(x, y),
        (Val::Ref(x), Val::Null) => matches!(x, Json::Null),
        (Val::Null, Val::Ref(y)) => matches!(y, Json::Null),
        (Val::Ref(x), Val::Bool(q)) => match x {
            Json::Bool(p) => *p == *q,
            _ => false,
        },
        (Val::Bool(p), Val::Ref(y)) => match y {
            Json::Bool(q) => *p == *q,
            _ => false,
        },
        (Val::Ref(x), Val::Str(t)) => match x {
            Json::Str(s) => chars_eq(s, t),
            _ => false,
        },
        (Val::Str(s), Val::Ref(y)) => match y {
            Json::Str(t) => chars_eq(s, t),
            _ => false,
        },
        (Val::Null, Val::Null) => true,
        (Val::Bool(p), Val::Bool(q)) => *p == *q,
        (Val::Str(s), Val::Str(t)) => chars_eq(s, t),
        _ => false,
    }
}

/// Evaluates an expression against the context and the loop bindings.
fn eval_expr<'a>(e: &'a Expression, ctx: &'a Json, binds: &Vec<(&'a Vec<char>, &'a Json)>) -> (r: Result<Val<'a>, RuntimeError>)
    ensures
        val_result(r) == eval(e@, ctx@, binds_view(binds@)),
    decreases e,
{
    match e {
        Expression::StringLiteral(s) => Ok(Val::Str(s)),
        Expression::Variable(n) => match lookup_var(ctx, binds, n) {
            Some(v) => Ok(Val::Ref(v)),
            None => Err(RuntimeError::UndefinedName),
        },
        Expression::PathAccess(base, f) => {
            let b = eval_expr(base, ctx, binds)?;
            match b {
                Val::Ref(Json::Object(members)) => match find_member(members, f) {
                    Some(v) => Ok(Val::Ref(v)),
                    None => Ok(Val::Null),
                },
                _ => Err(RuntimeError::NotAnObject),
            }
        },
        Expression::Not(inner) => {
            let v = eval_expr(inner, ctx, binds)?;
            let b = val_bool(v)?;
            Ok(Val::Bool(!b))
        },
        Expression::Equals(l, r) => {
            let a = eval_expr(l, ctx, binds)?;
            let b = eval_expr(r, ctx, binds)?;
            Ok(Val::Bool(val_eq(&a, &b)))
        },
        Expression::NotEquals(l, r) => {
            let a = eval_expr(l, ctx, binds)?;
            let b = eval_expr(r, ctx, binds)?;
            Ok(Val::Bool(!val_eq(&a, &b)))
        },
        Expression::And(l, r) => {
            let a = eval_expr(l, ctx, binds)?;
            if !val_bool(a)? {
                return Ok(Val::Bool(false));
            }
            let b = eval_expr(r, ctx, binds)?;
            Ok(Val::Bool(val_bool(b)?))
        },
        Expression::Or(l, r) => {
            let a = eval_expr(l, ctx, binds)?;
            if val_bool(a)? {
                return Ok(Val::Bool(true));
            }
            let b = eval_expr(r, ctx, binds)?;
            Ok(Val::Bool(val_bool(b)?))
        },
    }
}

} // verus!

verus! {

/// Appends the characters of `t` to `out`.
pub fn append_chars(out: &mut Vec<char>, t: &Vec<char>)
    ensures
        final(out)@ == old(out)@ + t@,
{
    let mut i: usize = 0;
    while i < t.len()
        invariant
            i <= t.len(),
            out@ == old(out)@ + t@.subrange(0, i as int),
        decreases t.len() - i,
    {
        out.push(t[i]);
        assert(t@.subrange(0, i + 1) =~= t@.subrange(0, i as int).push(t@[i as int]));
        i = i + 1;
    }
    assert(t@.subrange(0, i as int) =~= t@);
}

/// Appends the text that `v` is emitted as.
fn emit(v: &Val, out: &mut Vec<char>) -> (r: Result<(), RuntimeError>)
    ensures
        match text_of(v@) {
            Ok(t) => r is Ok && final(out)@ == old(out)@ + t,
            Err(err) => r == Err::<(), RuntimeError>(err),
        },
{
    let b = match v {
        Val::Ref(Json::Str(s)) => {
            append_chars(out, s);
            return Ok(());
        },
        Val::Str(s) => {
            append_chars(out, s);
            return Ok(());
        },
        Val::Ref(Json::Number(n)) => {
            append_chars(out, n);
            return Ok(());
        },
        Val::Ref(Json::Null) | Val::Null => {
            out.push('n');
            out.push('u');
            out.push('l');
            out.push('l');
            assert(final(out)@ =~= old(out)@ + seq!['n', 'u', 'l', 'l']);
            return Ok(());
        },
        Val::Ref(Json::Bool(b)) => *b,
        Val::Bool(b) => *b,
        _ => {
            return Err(RuntimeError::NotRenderable);
        },
    };
    if b {
        out.push('t');
        out.push('r');
        out.push('u');
        out.push('e');
        assert(final(out)@ =~= old(out)@ + seq!['t', 'r', 'u', 'e']);
    } else {
        out.push('f');
        out.push('a');
        out.push('l');
        out.push('s');
        out.push('e');
        assert(final(out)@ =~= old(out)@ + seq!['f', 'a', 'l', 's', 'e']);
    }
    Ok(())
}

/// The spec outcome of a step that appended to `out`.
pub open spec fn wrote(r: Result<(), RuntimeError>, before: Seq<char>, now: Seq<char>, expected: Result<Seq<char>, RuntimeError>) -> bool {
    match expected {
        Ok(t) => r is Ok && now == before + t,
        Err(err) => r == Err::<(), RuntimeError>(err),
    }
}

/// Runs one statement, appending its output to `out`.
fn exec_stmt<'a>(
    s: &'a Statement,
    ctx: &'a Json,
    binds: &mut Vec<(&'a Vec<char>, &'a Json)>,
    out: &mut Vec<char>,
) -> (r: Result<(), RuntimeError>)
    ensures
        final(binds)@ == old(binds)@,
        wrote(r, old(out)@, final(out)@, run_stmt(s@, ctx@, binds_view(old(binds)@))),
    decreases s, 2int,
{
    match s {
        Statement::Text(t) => {
            append_chars(out, t);
            Ok(())
        },
        Statement::Output(e) => {
            let v = eval_expr(e, ctx, binds)?;
            emit(&v, out)
        },
        Statement::For(n, e, body) => {
            let v = eval_expr(e, ctx, binds)?;
            assert(s@->For_2 == crate::ast::body_view(body));
            assert(crate::ast::body_view(body) =~= stmts_view(body@));
            match v {
                Val::Ref(Json::Array(items)) => {
                    assert(v@->Array_0 =~= items_view(items@));
                    exec_loop(body, n, items, ctx, binds, out)
                },
                _ => Err(RuntimeError::NotAnArray),
            }
        },
        Statement::If(c, then_body, else_body) => {
            let v = eval_expr(c, ctx, binds)?;
            let b = val_bool(v)?;
            assert(s@->If_1 == crate::ast::body_view(then_body));
            assert(crate::ast::body_view(then_body) =~= stmts_view(then_body@));
            if b {
                exec_list(then_body, ctx, binds, out)
            } else {
                match else_body {
                    Some(eb) => {
                        assert(s@->If_2 == Some(crate::ast::body_view(eb)));
                        assert(crate::ast::body_view(eb) =~= stmts_view(eb@));
                        exec_list(eb, ctx, binds, out)
                    },
                    None => {
                        assert(old(out)@ + Seq::<char>::empty() =~= out@);
                        Ok(())
                    },
                }
            }
        },
    }
}

/// Runs a sequence of statements, appending their output to `out`.
fn exec_list<'a>(
    ss: &'a Vec<Statement>,
    ctx: &'a Json,
    binds: &mut Vec<(&'a Vec<char>, &'a Json)>,
    out: &mut Vec<char>,
) -> (r: Result<(), RuntimeError>)
    ensures
        final(binds)@ == old(binds)@,
        wrote(r, old(out)@, final(out)@, run_list(stmts_view(ss@), 0, ctx@, binds_view(old(binds)@))),
    decreases ss, 0int,
{
    let ghost sv = stmts_view(ss@);
    let ghost bv = binds_view(binds@);
    let ghost done: Seq<char> = Seq::empty();
    let mut i: usize = 0;
    assert(after(done, run_list(sv, 0, ctx@, bv)) =~= run_list(sv, 0, ctx@, bv)) by {
        if let Ok(t) = run_list(sv, 0, ctx@, bv) {
            assert(done + t =~= t);
        }
    }
    while i < ss.len()
        invariant
            i <= ss.len(),
            sv == stmts_view(ss@),
            binds@ == old(binds)@,
            bv == binds_view(binds@),
            out@ == old(out)@ + done,
            after(done, run_list(sv, i as int, ctx@, bv)) == run_list(sv, 0, ctx@, bv),
        decreases ss.len() - i,
    {
        let ghost before = out@;
        let r = exec_stmt(&ss[i], ctx, binds, out);
        assert(sv[i as int] == ss[i as int]@);
        match r {
            Ok(()) => {
                let ghost t = run_stmt(sv[i as int], ctx@, bv)->Ok_0;
                proof {
                    lemma_after_after(done, t, run_list(sv, i + 1, ctx@, bv));
                    assert(old(out)@ + (done + t) =~= out@);
                    done = done + t;
                }
            },
            Err(err) => {
                return Err(err);
            },
        }
        i = i + 1;
    }
    assert(old(out)@ + done + Seq::<char>::empty() =~= out@);
    Ok(())
}

/// Runs a loop body once for each item, with `n` bound to it.
fn exec_loop<'a>(
    body: &'a Vec<Statement>,
    n: &'a Vec<char>,
    items: &'a Vec<Json>,
    ctx: &'a Json,
    binds: &mut Vec<(&'a Vec<char>, &'a Json)>,
    out: &mut Vec<char>,
) -> (r: Result<(), RuntimeError>)
    ensures
        final(binds)@ == old(binds)@,
        wrote(
            r,
            old(out)@,
            final(out)@,
            run_loop(stmts_view(body@), n@, items_view(items@), 0, ctx@, binds_view(old(binds)@)),
        ),
    decreases body, 1int,
{
    let ghost sv = stmts_view(body@);
    let ghost iv = items_view(items@);
    let ghost bv = binds_view(binds@);
    let ghost done: Seq<char> = Seq::empty();
    let mut k: usize = 0;
    assert(after(done, run_loop(sv, n@, iv, 0, ctx@, bv)) =~= run_loop(sv, n@, iv, 0, ctx@, bv)) by {
        if let Ok(t) = run_loop(sv, n@, iv, 0, ctx@, bv) {
            assert(done + t =~= t);
        }
    }
    while k < items.len()
        invariant
            k <= items.len(),
            sv == stmts_view(body@),
            iv == items_view(items@),
            binds@ == old(binds)@,
            bv == binds_view(binds@),
            out@ == old(out)@ + done,
            after(done, run_loop(sv, n@, iv, k as int, ctx@, bv)) == run_loop(sv, n@, iv, 0, ctx@, bv),
        decreases items.len() - k,
    {
        let ghost before = out@;
        binds.push((n, &items[k]));
        assert(binds_view(binds@) =~= bv.push((n@, iv[k as int])));
        let r = exec_list(body, ctx, binds, out);
        binds.pop();
        assert(binds@ =~= old(binds)@);
        match r {
            Ok(()) => {
                let ghost t = run_list(sv, 0, ctx@, bv.push((n@, iv[k as int])))->Ok_0;
                proof {
                    lemma_after_after(done, t, run_loop(sv, n@, iv, k + 1, ctx@, bv));
                    assert(old(out)@ + (done + t) =~= out@);
                    done = done + t;
                }
            },
            Err(err) => {
                return Err(err);
            },
        }
        k = k + 1;
    }
    assert(old(out)@ + done + Seq::<char>::empty() =~= out@);
    Ok(())
}

} // verus!

verus! {

/// Runs a program against a context and returns its output.
pub fn render_program(prog: &Vec<Statement>, ctx: &Json) -> (r: Result<String, RuntimeError>)
    ensures
        match run_program(stmts_view(prog@), ctx@) {
            Ok(out) => r is Ok && r->Ok_0@ == out,
            Err(e) => r == Err::<String, RuntimeError>(e),
        },
{
    let mut binds: Vec<(&Vec<char>, &Json)> = Vec::new();
    let mut out: Vec<char> = Vec::new();
    assert(binds_view(binds@) =~= Seq::empty());
    exec_list(prog, ctx, &mut binds, &mut out)?;
    assert(out@ =~= Seq::<char>::empty() + out@);
    Ok(crate::string_of(&out))
}

} // verus!
