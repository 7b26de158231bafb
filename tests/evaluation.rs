use linecalc::evaluation::{
    error, require_fixed_args, require_min_args, undefined_variable, Arity,
};
use linecalc::help::help;
use linecalc::lexer::{FunctionType, OperatorType};
use linecalc::parser::{Expression, Parser, Program};

/// The function and argument count of a line that is a single call.
fn call_of(line: &str) -> (FunctionType, usize) {
    match Parser::new(line).parse().expect("expression doesn't parse!") {
        Program::Expr(e) => match *e {
            Expression::FunctionExpr(f) => (f.func, f.args.len()),
            _ => panic!("not a call"),
        },
        _ => panic!("not an expression!"),
    }
}

fn arity_error(line: &str) -> Option<String> {
    let (func, n) = call_of(line);
    func.check_arity(n).err().map(|e| e.description)
}

#[test]
fn test_arccos() {
    assert_eq!(arity_error("arccos(0.5)"), None);
    assert!(FunctionType::ArcCos.domain_failure().is_some());
}

#[test]
fn test_arcsin() {
    assert_eq!(arity_error("arcsin(0.5)"), None);
    assert!(FunctionType::ArcSin.domain_failure().is_some());
}

#[test]
fn test_arctan() {
    assert_eq!(arity_error("arctan(1)"), None);
    assert!(FunctionType::ArcTan.domain_failure().is_none());
}

#[test]
fn single_argument_extremum_is_an_arity_error() {
    assert_eq!(
        arity_error("max(1.0)").as_deref(),
        Some("evaluation error: max: at least 2 arguments required, got 1.")
    );
    assert_eq!(
        arity_error("min(1.0)").as_deref(),
        Some("evaluation error: min: at least 2 arguments required, got 1.")
    );
    assert_eq!(arity_error("max(-1, -10, -2)"), None);
}

#[test]
fn fixed_arity_mismatches_are_reported() {
    assert_eq!(
        arity_error("cos(1.0, 2.0)").as_deref(),
        Some("evaluation error: cos: single argument required, got 2.")
    );
    assert_eq!(
        arity_error("pow(1.0)").as_deref(),
        Some("evaluation error: pow: 2 arguments required, got 1.")
    );
    assert_eq!(
        arity_error("sqrt()").as_deref(),
        Some("evaluation error: sqrt: single argument required, got 0.")
    );
    assert_eq!(arity_error("pow(16, 2)"), None);
    assert_eq!(arity_error("abs(-3)"), None);
}

#[test]
fn arity_table() {
    assert_eq!(FunctionType::Max.arity(), Arity::AtLeast(2));
    assert_eq!(FunctionType::Min.arity(), Arity::AtLeast(2));
    assert_eq!(FunctionType::Pow.arity(), Arity::Fixed(2));
    assert_eq!(FunctionType::Ln.arity(), Arity::Fixed(1));
    assert_eq!(FunctionType::Abs.arity(), Arity::Fixed(1));
}

#[test]
fn domain_restricted_functions_describe_their_failure() {
    assert_eq!(FunctionType::Ln.domain_failure(), Some("ln: argument must be greater than zero"));
    assert_eq!(FunctionType::Log.domain_failure(), Some("log: argument must be greater than zero"));
    assert_eq!(FunctionType::Sqrt.domain_failure(), Some("sqrt: argument must be nonnegative"));
    assert!(FunctionType::Exp.domain_failure().is_some());
    assert!(FunctionType::Pow.domain_failure().is_some());
    assert!(FunctionType::Tan.domain_failure().is_some());
    assert!(FunctionType::Abs.domain_failure().is_none());
    assert!(FunctionType::Cos.domain_failure().is_none());
    assert!(FunctionType::Sin.domain_failure().is_none());
    assert!(FunctionType::Max.domain_failure().is_none());
}

#[test]
fn binary_failures() {
    assert_eq!(
        OperatorType::DividedBy.binary_failure(),
        Some("arithmetic overflow during division")
    );
    assert_eq!(OperatorType::Power.binary_failure(), Some("result of exponentiation is undefined"));
    assert_eq!(OperatorType::Plus.binary_failure(), Some("arithmetic overflow during addition"));
    assert!(OperatorType::Comma.binary_failure().is_none());
    assert!(OperatorType::Assignment.binary_failure().is_none());
}

#[test]
fn argument_checks() {
    assert!(require_fixed_args(1, 1, "abs").is_ok());
    assert_eq!(
        require_fixed_args(12, 2, "pow").unwrap_err().description,
        "evaluation error: pow: 2 arguments required, got 12."
    );
    assert!(require_min_args(5, 2, "max").is_ok());
    assert_eq!(
        require_min_args(0, 2, "min").unwrap_err().description,
        "evaluation error: min: at least 2 arguments required, got 0."
    );
}

#[test]
fn evaluation_errors_are_framed() {
    let r: Result<f64, linecalc::errors::Error> = error("boom");
    assert_eq!(r.unwrap_err().description, "evaluation error: boom.");
    assert_eq!(undefined_variable('x').description, "evaluation error: variable x is undefined.");
}

#[test]
fn help_names_every_function() {
    let text = help();
    assert!(text.starts_with("linecalc is an interactive calculator"));
    for f in ["abs", "arccos", "arcsin", "arctan", "cos", "exp", "ln", "log", "max", "min", "pow"] {
        assert!(text.contains(&format!("{}(", f)));
    }
}
