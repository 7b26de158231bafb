use crate::errors::Error;
use crate::lexer::{
    char_string, command_spelling, lemma_tokens_terminated, operator_char, terminated, tokenize,
    tokens_of, views, CommandType,
    FunctionType, OperatorType, Token, TokenView,
};
use vstd::prelude::*;

verus! {

pub type ParseResult<T> = Result<T, Error>;

// ---------------------------------------------------------------------------
// Syntax tree

pub enum Expression {
    ParenExpr(Box<ParenExpression>),
    UnaryExpr(Box<UnaryExpression>),
    BinaryExpr(Box<BinaryExpression>),
    FunctionExpr(Box<FunctionExpression>),
    VariableExpr(Box<VariableExpression>),
    LiteralExpr(Box<LiteralExpression>),
}

pub struct ParenExpression {
    pub expr: Expression,
}

impl ParenExpression {
    pub fn new(e: Expression) -> (r: Self)
        ensures
            r.expr == e,
    {
        ParenExpression { expr: e }
    }
}

pub struct UnaryExpression {
    pub op: OperatorType,
    pub expr: Expression,
}

impl UnaryExpression {
    pub fn new(o: OperatorType, e: Expression) -> (r: Self)
        ensures
            r.op == o,
            r.expr == e,
    {
        UnaryExpression { op: o, expr: e }
    }
}

pub struct BinaryExpression {
    pub op: OperatorType,
    pub left: Expression,
    pub right: Expression,
}

impl BinaryExpression {
    pub fn new(o: OperatorType, l: Expression, r: Expression) -> (b: Self)
        ensures
            b.op == o,
            b.left == l,
            b.right == r,
    {
        BinaryExpression { op: o, left: l, right: r }
    }
}

pub struct FunctionExpression {
    pub func: FunctionType,
    pub args: Vec<Expression>,
}

impl FunctionExpression {
    pub fn new(f: FunctionType, a: Vec<Expression>) -> (r: Self)
        ensures
            r.func == f,
            r.args == a,
    {
        FunctionExpression { func: f, args: a }
    }
}

pub struct VariableExpression {
    pub var: char,
}

impl VariableExpression {
    pub fn new(c: char) -> (r: Self)
        ensures
            r.var == c,
    {
        VariableExpression { var: c }
    }
}

/// A number literal, as the text it was written with.
pub struct LiteralExpression {
    pub val: String,
}

impl LiteralExpression {
    pub fn new(v: String) -> (r: Self)
        ensures
            r.val == v,
    {
        LiteralExpression { val: v }
    }
}

pub enum Statement {
    CommandStmt(Box<CommandStatement>),
    AssignmentStmt(Box<AssignmentStatement>),
}

pub struct CommandStatement {
    pub command: CommandType,
}

impl CommandStatement {
    pub fn new(cmd: CommandType) -> (r: Self)
        ensures
            r.command == cmd,
    {
        CommandStatement { command: cmd }
    }
}

pub struct AssignmentStatement {
    pub variable: VariableExpression,
    pub expression: Expression,
}

impl AssignmentStatement {
    pub fn new(var: VariableExpression, expr: Expression) -> (r: Self)
        ensures
            r.variable == var,
            r.expression == expr,
    {
        AssignmentStatement { variable: var, expression: expr }
    }
}

pub enum Program {
    Stmt(Box<Statement>),
    Expr(Box<Expression>),
}

// ---------------------------------------------------------------------------
// The mathematical value of a tree

pub enum ExprView {
    Paren(Box<ExprView>),
    Unary(OperatorType, Box<ExprView>),
    Binary(OperatorType, Box<ExprView>, Box<ExprView>),
    Call(FunctionType, Seq<ExprView>),
    Variable(char),
    Literal(Seq<char>),
}

pub enum ProgramView {
    Command(CommandType),
    Assignment(char, ExprView),
    Expression(ExprView),
}

pub open spec fn expr_view(e: Expression) -> ExprView
    decreases e,
{
    match e {
        Expression::ParenExpr(b) => ExprView::Paren(Box::new(expr_view(b.expr))),
        Expression::UnaryExpr(b) => ExprView::Unary(b.op, Box::new(expr_view(b.expr))),
        Expression::BinaryExpr(b) => ExprView::Binary(
            b.op,
            Box::new(expr_view(b.left)),
            Box::new(expr_view(b.right)),
        ),
        Expression::FunctionExpr(b) => ExprView::Call(b.func, args_view(b.args@)),
        Expression::VariableExpr(b) => ExprView::Variable(b.var),
        Expression::LiteralExpr(b) => ExprView::Literal(b.val@),
    }
}

pub open spec fn args_view(a: Seq<Expression>) -> Seq<ExprView>
    decreases a,
{
    if a.len() == 0 {
        Seq::empty()
    } else {
        args_view(a.drop_last()).push(expr_view(a.last()))
    }
}

impl View for Expression {
    type V = ExprView;

    open spec fn view(&self) -> ExprView {
        expr_view(*self)
    }
}

impl View for Program {
    type V = ProgramView;

    open spec fn view(&self) -> ProgramView {
        match self {
            Program::Stmt(s) => match **s {
                Statement::CommandStmt(c) => ProgramView::Command(c.command),
                Statement::AssignmentStmt(a) => ProgramView::Assignment(
                    a.variable.var,
                    a.expression@,
                ),
            },
            Program::Expr(e) => ProgramView::Expression((**e)@),
        }
    }
}

// ---------------------------------------------------------------------------
// The grammar, over the token sequence of a line. Each rule takes the
// position of its first token and gives the tree and the position after it,
// or the description of the parse error. A rule that loops takes the tree
// built so far. Where a rule goes on after a sub-rule, it tests that the
// sub-rule moved forward, which every successful rule does: that test makes
// the measure of the recursion evident, and its error is never produced.

/// How a parse error is framed.
pub open spec fn parse_failure(description: Seq<char>) -> Seq<char> {
    "Parse error: "@ + description
}

/// The error of a rule that did not move forward; no rule ever gives it.
pub open spec fn stalled() -> Seq<char> {
    parse_failure("no progress"@)
}

/// The error for a missing or misplaced operator.
pub open spec fn expected(o: OperatorType) -> Seq<char> {
    parse_failure("expected "@ + seq![operator_char(o)])
}

/// The error for tokens left after a complete statement.
pub open spec fn extra_characters() -> Seq<char> {
    parse_failure("extra characters at the end of line."@)
}

/// The error for an argument followed by neither ')' nor ','.
pub open spec fn bad_separator() -> Seq<char> {
    parse_failure("either ')' or ',' must follow argument."@)
}

/// The token at position `p`; past the end, the end of input.
pub open spec fn tok(ts: Seq<TokenView>, p: int) -> TokenView {
    if 0 <= p < ts.len() {
        ts[p]
    } else {
        TokenView::Eol
    }
}

pub open spec fn binary(op: OperatorType, l: ExprView, r: ExprView) -> ExprView {
    ExprView::Binary(op, Box::new(l), Box::new(r))
}

/// expression := multiplicative (('+' | '-') multiplicative)*
pub open spec fn expr_at(ts: Seq<TokenView>, p: int) -> Result<(ExprView, int), Seq<char>>
    decreases ts.len() - p, 6int,
{
    match mult_at(ts, p) {
        Ok((e, q)) => if p < q <= ts.len() {
            additive_rest(ts, e, q)
        } else {
            Err(stalled())
        },
        Err(d) => Err(d),
    }
}

pub open spec fn additive_rest(ts: Seq<TokenView>, acc: ExprView, p: int) -> Result<
    (ExprView, int),
    Seq<char>,
>
    decreases ts.len() - p, 5int,
{
    let t = tok(ts, p);
    if t == TokenView::Operator(OperatorType::Plus) || t == TokenView::Operator(
        OperatorType::Minus,
    ) {
        match mult_at(ts, p + 1) {
            Ok((r, q)) => if p < q <= ts.len() {
                additive_rest(ts, binary(t->Operator_0, acc, r), q)
            } else {
                Err(stalled())
            },
            Err(d) => Err(d),
        }
    } else {
        Ok((acc, p))
    }
}

/// multiplicative := power (('*' | '/') power | '(' expression ')' | name-led power)*
/// where the last two are multiplications without a sign.
pub open spec fn mult_at(ts: Seq<TokenView>, p: int) -> Result<(ExprView, int), Seq<char>>
    decreases ts.len() - p, 4int,
{
    match power_at(ts, p) {
        Ok((e, q)) => if p < q <= ts.len() {
            mult_rest(ts, e, q)
        } else {
            Err(stalled())
        },
        Err(d) => Err(d),
    }
}

pub open spec fn mult_rest(ts: Seq<TokenView>, acc: ExprView, p: int) -> Result<
    (ExprView, int),
    Seq<char>,
>
    decreases ts.len() - p, 3int,
{
    let t = tok(ts, p);
    if t == TokenView::Operator(OperatorType::Times) || t == TokenView::Operator(
        OperatorType::DividedBy,
    ) {
        match power_at(ts, p + 1) {
            Ok((r, q)) => if p < q <= ts.len() {
                mult_rest(ts, binary(t->Operator_0, acc, r), q)
            } else {
                Err(stalled())
            },
            Err(d) => Err(d),
        }
    } else if t == TokenView::Operator(OperatorType::LeftParen) {
        match term_at(ts, p) {
            Ok((r, q)) => if p < q <= ts.len() {
                mult_rest(ts, binary(OperatorType::Times, acc, r), q)
            } else {
                Err(stalled())
            },
            Err(d) => Err(d),
        }
    } else if t is Variable || t is Function {
        match power_at(ts, p) {
            Ok((r, q)) => if p < q <= ts.len() {
                mult_rest(ts, binary(OperatorType::Times, acc, r), q)
            } else {
                Err(stalled())
            },
            Err(d) => Err(d),
        }
    } else {
        Ok((acc, p))
    }
}

/// power := term ('^' term)*, grouped to the left.
pub open spec fn power_at(ts: Seq<TokenView>, p: int) -> Result<(ExprView, int), Seq<char>>
    decreases ts.len() - p, 2int,
{
    match term_at(ts, p) {
        Ok((e, q)) => if p < q <= ts.len() {
            power_rest(ts, e, q)
        } else {
            Err(stalled())
        },
        Err(d) => Err(d),
    }
}

pub open spec fn power_rest(ts: Seq<TokenView>, acc: ExprView, p: int) -> Result<
    (ExprView, int),
    Seq<char>,
>
    decreases ts.len() - p, 1int,
{
    if tok(ts, p) == TokenView::Operator(OperatorType::Power) {
        match term_at(ts, p + 1) {
            Ok((r, q)) => if p < q <= ts.len() {
                power_rest(ts, binary(OperatorType::Power, acc, r), q)
            } else {
                Err(stalled())
            },
            Err(d) => Err(d),
        }
    } else {
        Ok((acc, p))
    }
}

/// term := '(' expression ')' | ('+' | '-') term | function '(' arguments ')'
///       | variable | literal
pub open spec fn term_at(ts: Seq<TokenView>, p: int) -> Result<(ExprView, int), Seq<char>>
    decreases ts.len() - p, 0int,
{
    match tok(ts, p) {
        TokenView::Literal(s) => Ok((ExprView::Literal(s), p + 1)),
        TokenView::Variable(v) => Ok((ExprView::Variable(v), p + 1)),
        TokenView::Operator(op) => if op == OperatorType::LeftParen {
            match expr_at(ts, p + 1) {
                Ok((e, q)) => if tok(ts, q) == TokenView::Operator(OperatorType::RightParen) {
                    Ok((ExprView::Paren(Box::new(e)), q + 1))
                } else {
                    Err(expected(OperatorType::RightParen))
                },
                Err(d) => Err(d),
            }
        } else if op == OperatorType::Plus || op == OperatorType::Minus {
            match term_at(ts, p + 1) {
                Ok((e, q)) => Ok((ExprView::Unary(op, Box::new(e)), q)),
                Err(d) => Err(d),
            }
        } else {
            Err(parse_failure("unexpected operator "@ + seq![operator_char(op)]))
        },
        TokenView::Function(f) => if tok(ts, p + 1) == TokenView::Operator(
            OperatorType::LeftParen,
        ) {
            match arguments_at(ts, p + 2) {
                Ok((args, q)) => if tok(ts, q) == TokenView::Operator(OperatorType::RightParen) {
                    Ok((ExprView::Call(f, args), q + 1))
                } else {
                    Err(expected(OperatorType::RightParen))
                },
                Err(d) => Err(d),
            }
        } else {
            Err(expected(OperatorType::LeftParen))
        },
        TokenView::Command(c) => Err(parse_failure("unexpected command "@ + command_spelling(c))),
        TokenView::Eol => Err(parse_failure("unexpected end of input."@)),
    }
}

/// arguments := empty | expression (',' expression)*, up to a ')' that is
/// left in place.
pub open spec fn arguments_at(ts: Seq<TokenView>, p: int) -> Result<
    (Seq<ExprView>, int),
    Seq<char>,
>
    decreases ts.len() - p, 8int,
{
    if tok(ts, p) == TokenView::Operator(OperatorType::RightParen) {
        Ok((Seq::empty(), p))
    } else {
        arguments_rest(ts, Seq::empty(), p)
    }
}

pub open spec fn arguments_rest(ts: Seq<TokenView>, acc: Seq<ExprView>, p: int) -> Result<
    (Seq<ExprView>, int),
    Seq<char>,
>
    decreases ts.len() - p, 7int,
{
    match expr_at(ts, p) {
        Ok((e, q)) => {
            let t = tok(ts, q);
            if t == TokenView::Operator(OperatorType::RightParen) {
                Ok((acc.push(e), q))
            } else if t == TokenView::Operator(OperatorType::Comma) {
                if p <= q {
                    arguments_rest(ts, acc.push(e), q + 1)
                } else {
                    Err(stalled())
                }
            } else {
                Err(bad_separator())
            }
        },
        Err(d) => Err(d),
    }
}

/// A bare expression that fills the line.
pub open spec fn expression_program(ts: Seq<TokenView>) -> Result<ProgramView, Seq<char>> {
    match expr_at(ts, 0) {
        Ok((e, q)) => if tok(ts, q) is Eol {
            Ok(ProgramView::Expression(e))
        } else {
            Err(extra_characters())
        },
        Err(d) => Err(d),
    }
}

/// A line's program: a command alone, an assignment where a variable is
/// followed by '=', else a bare expression.
pub open spec fn program_of(ts: Seq<TokenView>) -> Result<ProgramView, Seq<char>> {
    match tok(ts, 0) {
        TokenView::Command(c) => if tok(ts, 1) is Eol {
            Ok(ProgramView::Command(c))
        } else {
            Err(extra_characters())
        },
        TokenView::Variable(v) => if tok(ts, 1) == TokenView::Operator(OperatorType::Assignment) {
            match expr_at(ts, 2) {
                Ok((e, q)) => if tok(ts, q) is Eol {
                    Ok(ProgramView::Assignment(v, e))
                } else {
                    Err(extra_characters())
                },
                Err(d) => Err(d),
            }
        } else {
            expression_program(ts)
        },
        _ => expression_program(ts),
    }
}

/// The program of a line of text, or the description of the first lexical
/// or parse error.
pub open spec fn parse_text(t: Seq<char>) -> Result<ProgramView, Seq<char>> {
    match tokens_of(t) {
        Ok(ts) => program_of(ts),
        Err(d) => Err(d),
    }
}

// ---------------------------------------------------------------------------
// Parsing

/// A parse error, with its description framed as the parser frames it.
pub fn error<T>(description: &str) -> (r: ParseResult<T>)
    ensures
        r matches Err(e) && e.description@ == parse_failure(description@),
{
    Err(Error { description: String::from_str("Parse error: ").concat(description) })
}

/// A parser for one line of text.
pub struct Parser {
    text: String,
}

impl Parser {
    /// The line to be parsed.
    pub closed spec fn source(&self) -> Seq<char> {
        self.text@
    }

    pub fn new(s: &str) -> (r: Self)
        ensures
            r.source() == s@,
    {
        Parser { text: String::from_str(s) }
    }

    /// The program of the whole line: a command, an assignment or an
    /// expression, with nothing after it.
    pub fn parse(&self) -> (r: ParseResult<Program>)
        ensures
            match parse_text(self.source()) {
                Ok(prog) => r matches Ok(x) && x@ == prog,
                Err(d) => r matches Err(x) && x.description@ == d,
            },
    {
        let toks = tokenize(self.text.as_str())?;
        proof {
            lemma_tokens_terminated(self.text@, 0);
        }
        parse_program(&toks)
    }
}

fn is_operator(t: &Token, o: OperatorType) -> (r: bool)
    ensures
        r == (t@ == TokenView::Operator(o)),
{
    match t {
        Token::Operator(op) => *op == o,
        _ => false,
    }
}

fn parse_program(toks: &Vec<Token>) -> (r: ParseResult<Program>)
    requires
        terminated(views(toks@)),
    ensures
        match program_of(views(toks@)) {
            Ok(prog) => r matches Ok(x) && x@ == prog,
            Err(d) => r matches Err(x) && x.description@ == d,
        },
{
    let ghost ts = views(toks@);
    assert(tok(ts, 0) == toks@[0]@);
    match &toks[0] {
        Token::Command(cmd) => parse_command_program(toks, *cmd),
        Token::Variable(var) => {
            // One token of lookahead tells an assignment from an expression.
            assert(tok(ts, 1) == toks@[1]@);
            if is_operator(&toks[1], OperatorType::Assignment) {
                parse_assignment_program(toks, *var)
            } else {
                parse_expression_program(toks)
            }
        },
        _ => parse_expression_program(toks),
    }
}

fn parse_command_program(toks: &Vec<Token>, cmd: CommandType) -> (r: ParseResult<Program>)
    requires
        terminated(views(toks@)),
        toks@[0]@ == TokenView::Command(cmd),
    ensures
        match program_of(views(toks@)) {
            Ok(prog) => r matches Ok(x) && x@ == prog,
            Err(d) => r matches Err(x) && x.description@ == d,
        },
{
    let ghost ts = views(toks@);
    assert(tok(ts, 0) == toks@[0]@);
    require_end_of_input(toks, 1)?;
    let stmt = CommandStatement::new(cmd);
    let stmt = Statement::CommandStmt(Box::new(stmt));
    Ok(Program::Stmt(Box::new(stmt)))
}

fn parse_assignment_program(toks: &Vec<Token>, var: char) -> (r: ParseResult<Program>)
    requires
        terminated(views(toks@)),
        toks@[0]@ == TokenView::Variable(var),
        toks@[1]@ == TokenView::Operator(OperatorType::Assignment),
    ensures
        match program_of(views(toks@)) {
            Ok(prog) => r matches Ok(x) && x@ == prog,
            Err(d) => r matches Err(x) && x.description@ == d,
        },
{
    let ghost ts = views(toks@);
    assert(tok(ts, 0) == toks@[0]@);
    assert(tok(ts, 1) == toks@[1]@);
    let lhs = VariableExpression::new(var);
    let (rhs, q) = parse_expression(toks, 2)?;
    require_end_of_input(toks, q)?;
    let stmt = AssignmentStatement::new(lhs, rhs);
    let stmt = Statement::AssignmentStmt(Box::new(stmt));
    Ok(Program::Stmt(Box::new(stmt)))
}

fn parse_expression_program(toks: &Vec<Token>) -> (r: ParseResult<Program>)
    requires
        terminated(views(toks@)),
    ensures
        match expression_program(views(toks@)) {
            Ok(prog) => r matches Ok(x) && x@ == prog,
            Err(d) => r matches Err(x) && x.description@ == d,
        },
{
    let (expr, q) = parse_expression(toks, 0)?;
    require_end_of_input(toks, q)?;
    Ok(Program::Expr(Box::new(expr)))
}

fn parse_expression(toks: &Vec<Token>, p: usize) -> (r: ParseResult<(Expression, usize)>)
    requires
        terminated(views(toks@)),
        p < toks.len(),
    ensures
        match expr_at(views(toks@), p as int) {
            Ok((e, q)) => r matches Ok((x, n)) && x@ == e && n == q,
            Err(d) => r matches Err(x) && x.description@ == d,
        },
        r matches Ok((_, n)) ==> p < n < toks.len(),
    decreases toks.len() - p, 7int,
{
    parse_additive_expression(toks, p)
}

fn parse_additive_expression(toks: &Vec<Token>, p: usize) -> (r: ParseResult<(Expression, usize)>)
    requires
        terminated(views(toks@)),
        p < toks.len(),
    ensures
        match expr_at(views(toks@), p as int) {
            Ok((e, q)) => r matches Ok((x, n)) && x@ == e && n == q,
            Err(d) => r matches Err(x) && x.description@ == d,
        },
        r matches Ok((_, n)) ==> p < n < toks.len(),
    decreases toks.len() - p, 6int,
{
    let ghost ts = views(toks@);
    let (mut result, mut q) = parse_multiplicative_expression(toks, p)?;
    loop
        invariant
            ts == views(toks@),
            terminated(ts),
            p < q < toks.len(),
            expr_at(ts, p as int) == additive_rest(ts, result@, q as int),
        ensures
            additive_rest(ts, result@, q as int) == Ok::<_, Seq<char>>((result@, q as int)),
        decreases toks.len() - q,
    {
        assert(tok(ts, q as int) == toks@[q as int]@);
        let t = &toks[q];
        if is_operator(t, OperatorType::Plus) || is_operator(t, OperatorType::Minus) {
            let op = if is_operator(t, OperatorType::Plus) {
                OperatorType::Plus
            } else {
                OperatorType::Minus
            };
            let (rhs, n) = parse_multiplicative_expression(toks, q + 1)?;
            result = Expression::BinaryExpr(Box::new(BinaryExpression::new(op, result, rhs)));
            q = n;
        } else {
            break ;
        }
    }
    Ok((result, q))
}

fn parse_multiplicative_expression(toks: &Vec<Token>, p: usize) -> (r: ParseResult<
    (Expression, usize),
>)
    requires
        terminated(views(toks@)),
        p < toks.len(),
    ensures
        match mult_at(views(toks@), p as int) {
            Ok((e, q)) => r matches Ok((x, n)) && x@ == e && n == q,
            Err(d) => r matches Err(x) && x.description@ == d,
        },
        r matches Ok((_, n)) ==> p < n < toks.len(),
    decreases toks.len() - p, 4int,
{
    let ghost ts = views(toks@);
    let (mut result, mut q) = parse_power_expression(toks, p)?;
    loop
        invariant
            ts == views(toks@),
            terminated(ts),
            p < q < toks.len(),
            mult_at(ts, p as int) == mult_rest(ts, result@, q as int),
        ensures
            mult_rest(ts, result@, q as int) == Ok::<_, Seq<char>>((result@, q as int)),
        decreases toks.len() - q,
    {
        assert(tok(ts, q as int) == toks@[q as int]@);
        let t = &toks[q];
        if is_operator(t, OperatorType::Times) || is_operator(t, OperatorType::DividedBy) {
            let op = if is_operator(t, OperatorType::Times) {
                OperatorType::Times
            } else {
                OperatorType::DividedBy
            };
            let (rhs, n) = parse_power_expression(toks, q + 1)?;
            result = Expression::BinaryExpr(Box::new(BinaryExpression::new(op, result, rhs)));
            q = n;
        } else if is_operator(t, OperatorType::LeftParen) {
            // a(b + c)
            let (rhs, n) = parse_term(toks, q)?;
            result = Expression::BinaryExpr(
                Box::new(BinaryExpression::new(OperatorType::Times, result, rhs)),
            );
            q = n;
        } else if matches!(t, Token::Variable(_)) || matches!(t, Token::Function(_)) {
            // 2x, ax^2, -3sqrt(...)
            let (rhs, n) = parse_power_expression(toks, q)?;
            result = Expression::BinaryExpr(
                Box::new(BinaryExpression::new(OperatorType::Times, result, rhs)),
            );
            q = n;
        } else {
            break ;
        }
    }
    Ok((result, q))
}

fn parse_power_expression(toks: &Vec<Token>, p: usize) -> (r: ParseResult<(Expression, usize)>)
    requires
        terminated(views(toks@)),
        p < toks.len(),
    ensures
        match power_at(views(toks@), p as int) {
            Ok((e, q)) => r matches Ok((x, n)) && x@ == e && n == q,
            Err(d) => r matches Err(x) && x.description@ == d,
        },
        r matches Ok((_, n)) ==> p < n < toks.len(),
    decreases toks.len() - p, 2int,
{
    let ghost ts = views(toks@);
    let (mut result, mut q) = parse_term(toks, p)?;
    loop
        invariant
            ts == views(toks@),
            terminated(ts),
            p < q < toks.len(),
            power_at(ts, p as int) == power_rest(ts, result@, q as int),
        ensures
            power_rest(ts, result@, q as int) == Ok::<_, Seq<char>>((result@, q as int)),
        decreases toks.len() - q,
    {
        assert(tok(ts, q as int) == toks@[q as int]@);
        if is_operator(&toks[q], OperatorType::Power) {
            let (rhs, n) = parse_term(toks, q + 1)?;
            result = Expression::BinaryExpr(
                Box::new(BinaryExpression::new(OperatorType::Power, result, rhs)),
            );
            q = n;
        } else {
            break ;
        }
    }
    Ok((result, q))
}

/// A parenthesized expression, a signed term, a function call, a variable
/// or a literal.
fn parse_term(toks: &Vec<Token>, p: usize) -> (r: ParseResult<(Expression, usize)>)
    requires
        terminated(views(toks@)),
        p < toks.len(),
    ensures
        match term_at(views(toks@), p as int) {
            Ok((e, q)) => r matches Ok((x, n)) && x@ == e && n == q,
            Err(d) => r matches Err(x) && x.description@ == d,
        },
        r matches Ok((_, n)) ==> p < n < toks.len(),
    decreases toks.len() - p, 0int,
{
    let ghost ts = views(toks@);
    assert(tok(ts, p as int) == toks@[p as int]@);
    match &toks[p] {
        Token::Command(cmd) => {
            let text = String::from_str("unexpected command ").concat(cmd.spelling());
            error(text.as_str())
        },
        Token::Literal(s) => {
            let lit = LiteralExpression::new(s.clone());
            Ok((Expression::LiteralExpr(Box::new(lit)), p + 1))
        },
        Token::Operator(op) => {
            if *op == OperatorType::LeftParen {
                let (expr, q) = parse_expression(toks, p + 1)?;
                let n = require_operator(toks, q, OperatorType::RightParen)?;
                Ok((Expression::ParenExpr(Box::new(ParenExpression::new(expr))), n))
            } else if *op == OperatorType::Plus || *op == OperatorType::Minus {
                let (expr, q) = parse_term(toks, p + 1)?;
                Ok((Expression::UnaryExpr(Box::new(UnaryExpression::new(*op, expr))), q))
            } else {
                let text = String::from_str("unexpected operator ").concat(
                    char_string(op.spelling()).as_str(),
                );
                error(text.as_str())
            }
        },
        Token::Variable(var) => Ok(
            (Expression::VariableExpr(Box::new(VariableExpression::new(*var))), p + 1),
        ),
        Token::Function(func) => {
            let q = require_operator(toks, p + 1, OperatorType::LeftParen)?;
            let (args, n) = parse_expression_list(toks, q)?;
            let m = require_operator(toks, n, OperatorType::RightParen)?;
            Ok((Expression::FunctionExpr(Box::new(FunctionExpression::new(*func, args))), m))
        },
        Token::Eol => error("unexpected end of input."),
    }
}

/// Zero or more arguments separated by commas; the closing ')' is left
/// for the caller.
fn parse_expression_list(toks: &Vec<Token>, p: usize) -> (r: ParseResult<
    (Vec<Expression>, usize),
>)
    requires
        terminated(views(toks@)),
        p < toks.len(),
    ensures
        match arguments_at(views(toks@), p as int) {
            Ok((a, q)) => r matches Ok((v, n)) && args_view(v@) == a && n == q,
            Err(d) => r matches Err(x) && x.description@ == d,
        },
        r matches Ok((_, n)) ==> p <= n < toks.len(),
    decreases toks.len() - p, 8int,
{
    let ghost ts = views(toks@);
    let mut args: Vec<Expression> = Vec::new();
    assert(args_view(args@) =~= Seq::<ExprView>::empty());
    assert(tok(ts, p as int) == toks@[p as int]@);
    if is_operator(&toks[p], OperatorType::RightParen) {
        return Ok((args, p));
    }
    let mut q = p;
    loop
        invariant
            ts == views(toks@),
            terminated(ts),
            p <= q < toks.len(),
            arguments_at(ts, p as int) == arguments_rest(ts, args_view(args@), q as int),
        decreases toks.len() - q,
    {
        let (expr, n) = parse_expression(toks, q)?;
        let ghost before = args@;
        let ghost e = expr@;
        args.push(expr);
        assert(args@.drop_last() =~= before);
        assert(args_view(args@) == args_view(before).push(e));
        assert(tok(ts, n as int) == toks@[n as int]@);
        if is_operator(&toks[n], OperatorType::RightParen) {
            return Ok((args, n));
        } else if is_operator(&toks[n], OperatorType::Comma) {
            q = n + 1;
        } else {
            return error("either ')' or ',' must follow argument.");
        }
    }
}

/// Requires the operator `o` at position `p` and moves past it.
fn require_operator(toks: &Vec<Token>, p: usize, o: OperatorType) -> (r: ParseResult<usize>)
    requires
        terminated(views(toks@)),
        p < toks.len(),
    ensures
        if tok(views(toks@), p as int) == TokenView::Operator(o) {
            r == Ok::<usize, Error>((p + 1) as usize) && p + 1 < toks.len()
        } else {
            r matches Err(x) && x.description@ == expected(o)
        },
{
    let ghost ts = views(toks@);
    assert(tok(ts, p as int) == toks@[p as int]@);
    if is_operator(&toks[p], o) {
        Ok(p + 1)
    } else {
        let text = String::from_str("expected ").concat(char_string(o.spelling()).as_str());
        error(text.as_str())
    }
}

fn require_end_of_input(toks: &Vec<Token>, p: usize) -> (r: ParseResult<()>)
    requires
        terminated(views(toks@)),
        p < toks.len(),
    ensures
        r is Ok <==> tok(views(toks@), p as int) is Eol,
        r matches Err(x) ==> x.description@ == extra_characters(),
{
    let ghost ts = views(toks@);
    assert(tok(ts, p as int) == toks@[p as int]@);
    match &toks[p] {
        Token::Eol => Ok(()),
        _ => error("extra characters at the end of line."),
    }
}

} // verus!
