use crate::errors::Error;
use crate::lexer::{function_spelling, FunctionType, OperatorType};
use vstd::prelude::*;

verus! {

/// How many arguments a function takes.
#[derive(Clone, Copy, Debug, PartialEq, Eq, Structural)]
pub enum Arity {
    /// Exactly this many.
    Fixed(usize),
    /// At least this many.
    AtLeast(usize),
}

pub open spec fn arity_of(f: FunctionType) -> Arity {
    match f {
        FunctionType::Max | FunctionType::Min => Arity::AtLeast(2),
        FunctionType::Pow => Arity::Fixed(2),
        _ => Arity::Fixed(1),
    }
}

pub open spec fn admits(a: Arity, n: nat) -> bool {
    match a {
        Arity::Fixed(k) => n == k,
        Arity::AtLeast(k) => n >= k,
    }
}

/// The functions whose result must be finite: outside their domain the
/// raw result is not.
pub open spec fn is_domain_restricted(f: FunctionType) -> bool {
    match f {
        FunctionType::ArcCos | FunctionType::ArcSin | FunctionType::Exp | FunctionType::Ln
        | FunctionType::Log | FunctionType::Pow | FunctionType::Sqrt | FunctionType::Tan => true,
        _ => false,
    }
}

/// What a domain-restricted function reports when its raw result is not
/// finite.
pub open spec fn domain_description(f: FunctionType) -> Option<Seq<char>> {
    match f {
        FunctionType::ArcCos => Some("arccos: argument must be between -1..1"@),
        FunctionType::ArcSin => Some("arcsin: argument must be between -1..1"@),
        FunctionType::Exp => Some("exp: overflow"@),
        FunctionType::Ln => Some("ln: argument must be greater than zero"@),
        FunctionType::Log => Some("log: argument must be greater than zero"@),
        FunctionType::Pow => Some("pow: the result is undefined"@),
        FunctionType::Sqrt => Some("sqrt: argument must be nonnegative"@),
        FunctionType::Tan => Some("tan: result is undefined"@),
        _ => None,
    }
}

/// What a binary operation reports when its result is not finite.
pub open spec fn binary_description(op: OperatorType) -> Option<Seq<char>> {
    match op {
        OperatorType::Plus => Some("arithmetic overflow during addition"@),
        OperatorType::Minus => Some("arithmetic overflow during subtraction"@),
        OperatorType::Times => Some("arithmetic overflow during multiplication"@),
        OperatorType::DividedBy => Some("arithmetic overflow during division"@),
        OperatorType::Power => Some("result of exponentiation is undefined"@),
        _ => None,
    }
}

/// The decimal digits of `n`, without leading zeros.
pub open spec fn decimal(n: nat) -> Seq<char>
    decreases n,
{
    if n < 10 {
        seq![(n + 48) as char]
    } else {
        decimal(n / 10).push(((n % 10) + 48) as char)
    }
}

/// How an evaluation error is framed.
pub open spec fn evaluation_failure(description: Seq<char>) -> Seq<char> {
    "evaluation error: "@ + description + "."@
}

pub open spec fn fixed_arity_failure(name: Seq<char>, required: nat, got: nat) -> Seq<char> {
    if required == 1 {
        name + ": single argument required, got "@ + decimal(got)
    } else {
        name + ": "@ + decimal(required) + " arguments required, got "@ + decimal(got)
    }
}

pub open spec fn min_arity_failure(name: Seq<char>, required: nat, got: nat) -> Seq<char> {
    name + ": at least "@ + decimal(required) + " arguments required, got "@ + decimal(got)
}

/// Relies on `ToString` for `usize`: the decimal digits of the number.
#[verifier::external_body]
fn usize_text(n: usize) -> (r: String)
    ensures
        r@ == decimal(n as nat),
{
    n.to_string()
}

fn failure(description: &str) -> (r: Error)
    ensures
        r.description@ == evaluation_failure(description@),
{
    Error { description: String::from_str("evaluation error: ").concat(description).concat(".") }
}

/// An evaluation error with the given description.
pub fn error<T>(description: &str) -> (r: Result<T, Error>)
    ensures
        r matches Err(e) && e.description@ == evaluation_failure(description@),
{
    Err(failure(description))
}

/// Succeeds exactly when `args_size` is `required_size`.
pub fn require_fixed_args(args_size: usize, required_size: usize, func_name: &str) -> (r: Result<
    (),
    Error,
>)
    ensures
        r is Ok <==> args_size == required_size,
        r matches Err(e) ==> e.description@ == evaluation_failure(
            fixed_arity_failure(func_name@, required_size as nat, args_size as nat),
        ),
{
    if args_size == required_size {
        Ok(())
    } else if required_size == 1 {
        let text = String::from_str(func_name).concat(": single argument required, got ").concat(
            usize_text(args_size).as_str(),
        );
        error(text.as_str())
    } else {
        let text = String::from_str(func_name).concat(": ").concat(
            usize_text(required_size).as_str(),
        ).concat(" arguments required, got ").concat(usize_text(args_size).as_str());
        error(text.as_str())
    }
}

/// Succeeds exactly when `args_size` is at least `required_min_size`.
pub fn require_min_args(args_size: usize, required_min_size: usize, func_name: &str) -> (r: Result<
    (),
    Error,
>)
    ensures
        r is Ok <==> args_size >= required_min_size,
        r matches Err(e) ==> e.description@ == evaluation_failure(
            min_arity_failure(func_name@, required_min_size as nat, args_size as nat),
        ),
{
    if args_size >= required_min_size {
        Ok(())
    } else {
        let text = String::from_str(func_name).concat(": at least ").concat(
            usize_text(required_min_size).as_str(),
        ).concat(" arguments required, got ").concat(usize_text(args_size).as_str());
        error(text.as_str())
    }
}

impl FunctionType {
    pub fn arity(&self) -> (r: Arity)
        ensures
            r == arity_of(*self),
    {
        match self {
            FunctionType::Max | FunctionType::Min => Arity::AtLeast(2),
            FunctionType::Pow => Arity::Fixed(2),
            _ => Arity::Fixed(1),
        }
    }

    /// Checks a call's argument count against the function's arity.
    pub fn check_arity(&self, args_size: usize) -> (r: Result<(), Error>)
        ensures
            r is Ok <==> admits(arity_of(*self), args_size as nat),
            r matches Err(e) ==> e.description@ == evaluation_failure(
                match arity_of(*self) {
                    Arity::Fixed(k) => fixed_arity_failure(
                        function_spelling(*self),
                        k as nat,
                        args_size as nat,
                    ),
                    Arity::AtLeast(k) => min_arity_failure(
                        function_spelling(*self),
                        k as nat,
                        args_size as nat,
                    ),
                },
            ),
    {
        match self.arity() {
            Arity::Fixed(k) => require_fixed_args(args_size, k, self.spelling()),
            Arity::AtLeast(k) => require_min_args(args_size, k, self.spelling()),
        }
    }

    /// What a domain-restricted function reports when its raw result is
    /// not finite; `None` for a function whose result is taken as it is.
    pub fn domain_failure(&self) -> (r: Option<&'static str>)
        ensures
            r is Some <==> is_domain_restricted(*self),
            match domain_description(*self) {
                Some(d) => r matches Some(x) && x@ == d,
                None => r is None,
            },
    {
        match self {
            FunctionType::ArcCos => Some("arccos: argument must be between -1..1"),
            FunctionType::ArcSin => Some("arcsin: argument must be between -1..1"),
            FunctionType::Exp => Some("exp: overflow"),
            FunctionType::Ln => Some("ln: argument must be greater than zero"),
            FunctionType::Log => Some("log: argument must be greater than zero"),
            FunctionType::Pow => Some("pow: the result is undefined"),
            FunctionType::Sqrt => Some("sqrt: argument must be nonnegative"),
            FunctionType::Tan => Some("tan: result is undefined"),
            _ => None,
        }
    }
}

impl OperatorType {
    /// What a binary operation reports when its result is not finite;
    /// `None` for an operator that is not binary.
    pub fn binary_failure(&self) -> (r: Option<&'static str>)
        ensures
            match binary_description(*self) {
                Some(d) => r matches Some(x) && x@ == d,
                None => r is None,
            },
    {
        match self {
            OperatorType::Plus => Some("arithmetic overflow during addition"),
            OperatorType::Minus => Some("arithmetic overflow during subtraction"),
            OperatorType::Times => Some("arithmetic overflow during multiplication"),
            OperatorType::DividedBy => Some("arithmetic overflow during division"),
            OperatorType::Power => Some("result of exponentiation is undefined"),
            _ => None,
        }
    }
}

/// The error for a variable that has no value.
pub fn undefined_variable(var: char) -> (r: Error)
    ensures
        r.description@ == evaluation_failure("variable "@ + seq![var] + " is undefined"@),
{
    let text = String::from_str("variable ").concat(crate::lexer::char_string(var).as_str()).concat(
        " is undefined",
    );
    failure(text.as_str())
}

} // verus!
