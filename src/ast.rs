use vstd::prelude::*;

verus! {

/// An expression of a directive.
#[derive(Debug)]
pub enum Expression {
    StringLiteral(Vec<char>),
    Variable(Vec<char>),
    PathAccess(Box<Expression>, Vec<char>),
    Not(Box<Expression>),
    Equals(Box<Expression>, Box<Expression>),
    NotEquals(Box<Expression>, Box<Expression>),
    And(Box<Expression>, Box<Expression>),
    Or(Box<Expression>, Box<Expression>),
}

/// A statement of a template program.
#[derive(Debug)]
pub enum Statement {
    Text(Vec<char>),
    Output(Expression),
    For(Vec<char>, Expression, Vec<Statement>),
    If(Expression, Vec<Statement>, Option<Vec<Statement>>),
}

/// The mathematical model of an expression.
pub enum ExprV {
    StringLiteral(Seq<char>),
    Variable(Seq<char>),
    PathAccess(Box<ExprV>, Seq<char>),
    Not(Box<ExprV>),
    Equals(Box<ExprV>, Box<ExprV>),
    NotEquals(Box<ExprV>, Box<ExprV>),
    And(Box<ExprV>, Box<ExprV>),
    Or(Box<ExprV>, Box<ExprV>),
}

/// The mathematical model of a statement.
pub enum StmtV {
    Text(Seq<char>),
    Output(ExprV),
    For(Seq<char>, ExprV, Seq<StmtV>),
    If(ExprV, Seq<StmtV>, Option<Seq<StmtV>>),
}

impl View for Expression {
    type V = ExprV;

    open spec fn view(&self) -> ExprV
        decreases self,
    {
        match self {
            Expression::StringLiteral(s) => ExprV::StringLiteral(s@),
            Expression::Variable(n) => ExprV::Variable(n@),
            Expression::PathAccess(b, f) => ExprV::PathAccess(Box::new((**b).view()), f@),
            Expression::Not(e) => ExprV::Not(Box::new((**e).view())),
            Expression::Equals(l, r) => ExprV::Equals(Box::new((**l).view()), Box::new((**r).view())),
            Expression::NotEquals(l, r) => ExprV::NotEquals(
                Box::new((**l).view()),
                Box::new((**r).view()),
            ),
            Expression::And(l, r) => ExprV::And(Box::new((**l).view()), Box::new((**r).view())),
            Expression::Or(l, r) => ExprV::Or(Box::new((**l).view()), Box::new((**r).view())),
        }
    }
}

impl View for Statement {
    type V = StmtV;

    open spec fn view(&self) -> StmtV
        decreases self, 1int,
    {
        match self {
            Statement::Text(t) => StmtV::Text(t@),
            Statement::Output(e) => StmtV::Output(e@),
            Statement::For(n, e, body) => StmtV::For(n@, e@, body_view(body)),
            Statement::If(c, then_body, else_body) => StmtV::If(
                c@,
                body_view(then_body),
                match else_body {
                    Some(eb) => Some(body_view(eb)),
                    None => None,
                },
            ),
        }
    }
}

/// The model of the statements of a block.
pub open spec fn body_view(body: &Vec<Statement>) -> Seq<StmtV>
    decreases body, 0int,
{
    Seq::new(
        body.len() as nat,
        |i: int|
            if 0 <= i < body.len() {
                body[i].view()
            } else {
                StmtV::Text(Seq::empty())
            },
    )
}

/// The model of a sequence of statements.
pub open spec fn stmts_view(v: Seq<Statement>) -> Seq<StmtV> {
    Seq::new(v.len(), |i: int| v[i]@)
}

} // verus!
