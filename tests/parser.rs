use linecalc::lexer::{CommandType, FunctionType, OperatorType};
use linecalc::parser::{
    AssignmentStatement, BinaryExpression, CommandStatement, Expression, FunctionExpression,
    LiteralExpression, ParenExpression, Parser, Program, Statement, UnaryExpression,
    VariableExpression,
};

/// A fully bracketed rendering of a tree: binary nodes as `[l op r]`,
/// parentheses as `(e)`, calls as `name{a;b}`.
fn show(e: &Expression) -> String {
    match e {
        Expression::ParenExpr(p) => format!("({})", show(&p.expr)),
        Expression::UnaryExpr(u) => format!("{}{}", u.op.spelling(), show(&u.expr)),
        Expression::BinaryExpr(b) => {
            format!("[{} {} {}]", show(&b.left), b.op.spelling(), show(&b.right))
        }
        Expression::FunctionExpr(f) => {
            let args: Vec<String> = f.args.iter().map(show).collect();
            format!("{}{{{}}}", f.func.spelling(), args.join(";"))
        }
        Expression::VariableExpr(v) => v.var.to_string(),
        Expression::LiteralExpr(l) => l.val.clone(),
    }
}

fn parse_expression(line: &str) -> String {
    match Parser::new(line).parse().expect("expression doesn't parse!") {
        Program::Expr(e) => show(&e),
        _ => panic!("not an expression!"),
    }
}

fn parse_error(line: &str) -> String {
    match Parser::new(line).parse() {
        Ok(_) => panic!("should not parse"),
        Err(e) => e.description,
    }
}

#[test]
fn implicit_multiplication_binds_left_to_right() {
    assert_eq!(parse_expression("6/2(1+2)"), "[[6 / 2] * ([1 + 2])]");
}

#[test]
fn powers_bind_tighter_than_products() {
    assert_eq!(
        parse_expression("4*10^3+3*10^2+2*10^1+1*10^0"),
        "[[[[4 * [10 ^ 3]] + [3 * [10 ^ 2]]] + [2 * [10 ^ 1]]] + [1 * [10 ^ 0]]]"
    );
}

#[test]
fn power_is_left_associative() {
    assert_eq!(parse_expression("2^3^2"), "[[2 ^ 3] ^ 2]");
}

#[test]
fn juxtaposed_names_multiply() {
    assert_eq!(parse_expression("2x"), "[2 * x]");
    assert_eq!(parse_expression("ax^2"), "[a * [x ^ 2]]");
    assert_eq!(parse_expression("-3sqrt(4)"), "[-3 * sqrt{4}]");
    assert_eq!(parse_expression("4ac"), "[[4 * a] * c]");
}

#[test]
fn unary_signs_nest_and_bind_to_one_term() {
    assert_eq!(parse_expression("--2"), "--2");
    assert_eq!(parse_expression("-2^2"), "[-2 ^ 2]");
    assert_eq!(parse_expression("-2 / 0"), "[-2 / 0]");
    assert_eq!(parse_expression("(-8 - -7) - (-4 / -2)"), "[([-8 - -7]) - ([-4 / -2])]");
}

#[test]
fn calls_take_any_number_of_arguments() {
    assert_eq!(parse_expression("max(-1, -10, -2)"), "max{-1;-10;-2}");
    assert_eq!(parse_expression("max(1.0)"), "max{1.0}");
    assert_eq!(parse_expression("pow()"), "pow{}");
    assert_eq!(parse_expression("min(sqrt(5), -1, 2^2)"), "min{sqrt{5};-1;[2 ^ 2]}");
}

#[test]
fn command_alone_is_a_command_statement() {
    match Parser::new(" help ").parse().expect("parses") {
        Program::Stmt(s) => match *s {
            Statement::CommandStmt(c) => assert_eq!(c.command, CommandType::Help),
            _ => panic!("not a command"),
        },
        _ => panic!("not a statement"),
    }
    assert_eq!(parse_error("quit now"), "Parse error: extra characters at the end of line.");
}

#[test]
fn variable_then_equals_is_an_assignment() {
    match Parser::new("x = x + 10").parse().expect("parses") {
        Program::Stmt(s) => match *s {
            Statement::AssignmentStmt(a) => {
                assert_eq!(a.variable.var, 'x');
                assert_eq!(show(&a.expression), "[x + 10]");
            }
            _ => panic!("not an assignment"),
        },
        _ => panic!("not a statement"),
    }
    assert_eq!(parse_expression("x + 1"), "[x + 1]");
}

#[test]
fn malformed_lines_are_parse_errors() {
    assert_eq!(parse_error("1 2"), "Parse error: extra characters at the end of line.");
    assert_eq!(parse_error("(1"), "Parse error: expected )");
    assert_eq!(parse_error("sqrt 4"), "Parse error: expected (");
    assert_eq!(parse_error("max(1 2)"), "Parse error: either ')' or ',' must follow argument.");
    assert_eq!(parse_error("1 +"), "Parse error: unexpected end of input.");
    assert_eq!(parse_error("2 * help"), "Parse error: unexpected command help");
    assert_eq!(parse_error("*2"), "Parse error: unexpected operator *");
    assert_eq!(parse_error("x = "), "Parse error: unexpected end of input.");
    assert_eq!(parse_error(""), "Parse error: unexpected end of input.");
    assert!(parse_error("max(1,)").starts_with("Parse error"));
    assert!(parse_error("1 = 2").starts_with("Parse error"));
}

#[test]
fn lex_errors_stop_the_parse() {
    assert_eq!(parse_error("1 + $"), "Syntax error: unrecognized character: $.");
}

#[test]
fn parse_error_is_framed() {
    let r: Result<(), linecalc::errors::Error> = linecalc::parser::error("bad");
    assert_eq!(r.unwrap_err().description, "Parse error: bad");
}

#[test]
fn constructors_keep_their_parts() {
    let v = VariableExpression::new('q');
    assert_eq!(v.var, 'q');
    let lit = LiteralExpression::new(String::from("1.5"));
    assert_eq!(lit.val, "1.5");
    let c = CommandStatement::new(CommandType::Quit);
    assert_eq!(c.command, CommandType::Quit);
    let one = || Expression::LiteralExpr(Box::new(LiteralExpression::new(String::from("1"))));
    let p = ParenExpression::new(one());
    assert_eq!(show(&p.expr), "1");
    let u = UnaryExpression::new(OperatorType::Minus, one());
    assert_eq!(u.op, OperatorType::Minus);
    let b = BinaryExpression::new(OperatorType::Times, one(), one());
    assert_eq!(show(&Expression::BinaryExpr(Box::new(b))), "[1 * 1]");
    let f = FunctionExpression::new(FunctionType::Pow, vec![one(), one()]);
    assert_eq!(f.args.len(), 2);
    let a = AssignmentStatement::new(VariableExpression::new('z'), one());
    assert_eq!(a.variable.var, 'z');
}

#[test]
fn lexical_error_text_reaches_the_caller() {
    assert_eq!(parse_error("2 # 3"), "Syntax error: unrecognized character: #.");
    assert_eq!(parse_error("help 1"), "Parse error: extra characters at the end of line.");
    assert_eq!(parse_error("1 + help"), "Parse error: unexpected command help");
}

#[test]
fn parsing_twice_gives_the_same_outcome() {
    let p = Parser::new("max(1 2)");
    let first = p.parse().err().map(|e| e.description);
    let second = p.parse().err().map(|e| e.description);
    assert_eq!(first, second);
    assert_eq!(first.as_deref(), Some("Parse error: either ')' or ',' must follow argument."));
}
