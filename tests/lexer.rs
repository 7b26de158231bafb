use linecalc::errors::Error;
use linecalc::lexer::{tokenize, CommandType, FunctionType, Lexer, OperatorType, Token};

fn literal_value(token: Result<Token, Error>) -> f64 {
    match token.expect("Syntax error") {
        Token::Literal(text) => text.parse::<f64>().expect("literal text is a number"),
        _ => panic!("not a literal"),
    }
}

fn assert_literal_token_with_value(token: Result<Token, Error>, value: f64) {
    assert_eq!(literal_value(token), value);
}

fn assert_variable_token_with_name(token: Result<Token, Error>, name: char) {
    match token.expect("Syntax error") {
        Token::Variable(c) => assert_eq!(c, name),
        _ => panic!("not a variable"),
    }
}

#[test]
fn integer_literal_is_tokenized() {
    let input = String::from("1325");
    let mut lexer = Lexer::new(&input);
    assert_literal_token_with_value(lexer.get_next(), 1325.0);
}

#[test]
fn decimal_literal_is_tokenized() {
    let input = String::from("13.25");
    let mut lexer = Lexer::new(&input);
    assert_literal_token_with_value(lexer.get_next(), 13.25);
}

#[test]
fn integer_and_exp_literal_is_tokenized() {
    let input = String::from("13e2");
    let mut lexer = Lexer::new(&input);
    assert_literal_token_with_value(lexer.get_next(), 1300.0);
}

#[test]
fn decimal_and_exp_literal_is_tokenized() {
    let input = String::from("13.25e2");
    let mut lexer = Lexer::new(&input);
    assert_literal_token_with_value(lexer.get_next(), 1325.0);
}

#[test]
fn decimal_with_leading_zero_is_tokenized() {
    let input = String::from(".1325");
    let mut lexer = Lexer::new(&input);
    assert_literal_token_with_value(lexer.get_next(), 0.1325);
}

#[test]
fn decimal_with_leading_zero_and_exponent_is_tokenized() {
    let input = String::from(".1325e2");
    let mut lexer = Lexer::new(&input);
    assert_literal_token_with_value(lexer.get_next(), 13.25);
}

#[test]
fn decimal_with_two_exponents_tokenizes_as_literal_and_variable() {
    let input = String::from("13.25e2e24");
    let mut lexer = Lexer::new(&input);
    assert_literal_token_with_value(lexer.get_next(), 1325.0);
    assert_variable_token_with_name(lexer.get_next(), 'e');
    assert_literal_token_with_value(lexer.get_next(), 24.0);
}

#[test]
fn two_exponents_give_exactly_three_tokens() {
    let tokens = tokenize("13.25e2e24").expect("lexes");
    assert_eq!(
        tokens,
        vec![
            Token::Literal(String::from("13.25e2")),
            Token::Variable('e'),
            Token::Literal(String::from("24")),
            Token::Eol,
        ]
    );
}

#[test]
fn literal_keeps_its_text() {
    let tokens = tokenize("  007.50e10x").expect("lexes");
    assert_eq!(tokens[0], Token::Literal(String::from("007.50e10")));
    assert_eq!(tokens[1], Token::Variable('x'));
    assert_eq!(tokens[2], Token::Eol);
}

#[test]
fn exponent_marker_without_digit_is_left_alone() {
    let tokens = tokenize("2e").expect("lexes");
    assert_eq!(tokens, vec![Token::Literal(String::from("2")), Token::Variable('e'), Token::Eol]);
    let tokens = tokenize("2exp(1)").expect("lexes");
    assert_eq!(tokens[0], Token::Literal(String::from("2")));
    assert_eq!(tokens[1], Token::Function(FunctionType::Exp));
}

#[test]
fn point_without_digits_is_a_lex_error() {
    let err = tokenize("5.").unwrap_err();
    assert_eq!(err.description, "Syntax error: No digits following '.'.");
    let err = tokenize(". 5").unwrap_err();
    assert_eq!(err.description, "Syntax error: No digits following '.'.");
}

#[test]
fn unknown_character_is_a_lex_error() {
    let err = tokenize("1 # 2").unwrap_err();
    assert_eq!(err.description, "Syntax error: unrecognized character: #.");
    assert!(tokenize("X").is_err());
}

#[test]
fn operators_are_tokenized() {
    let tokens = tokenize("+-*/^(),=").expect("lexes");
    let ops = [
        OperatorType::Plus,
        OperatorType::Minus,
        OperatorType::Times,
        OperatorType::DividedBy,
        OperatorType::Power,
        OperatorType::LeftParen,
        OperatorType::RightParen,
        OperatorType::Comma,
        OperatorType::Assignment,
    ];
    assert_eq!(tokens.len(), ops.len() + 1);
    for (i, op) in ops.iter().enumerate() {
        assert_eq!(tokens[i], Token::Operator(*op));
        assert_eq!(
            tokenize(&op.spelling().to_string()).expect("lexes")[0],
            Token::Operator(*op)
        );
    }
}

#[test]
fn keywords_are_recognized_in_table_order() {
    let tokens = tokenize("help quit arcsin sqrtx lnq").expect("lexes");
    assert_eq!(
        tokens,
        vec![
            Token::Command(CommandType::Help),
            Token::Command(CommandType::Quit),
            Token::Function(FunctionType::ArcSin),
            Token::Function(FunctionType::Sqrt),
            Token::Variable('x'),
            Token::Function(FunctionType::Ln),
            Token::Variable('q'),
            Token::Eol,
        ]
    );
}

#[test]
fn whitespace_is_skipped_and_end_repeats() {
    let mut lexer = Lexer::new(" \t a \u{3000}");
    assert_variable_token_with_name(lexer.get_next(), 'a');
    assert!(matches!(lexer.get_next(), Ok(Token::Eol)));
    assert!(matches!(lexer.get_next(), Ok(Token::Eol)));
    assert!(matches!(lexer.current(), Ok(Token::Eol)));
}

#[test]
fn peek_does_not_advance() {
    let mut lexer = Lexer::new("x = 1");
    assert_variable_token_with_name(lexer.get_next(), 'x');
    assert!(matches!(lexer.peek_next(), Ok(Token::Operator(OperatorType::Assignment))));
    assert!(matches!(lexer.current(), Ok(Token::Variable('x'))));
    assert!(matches!(lexer.get_next(), Ok(Token::Operator(OperatorType::Assignment))));
    assert_literal_token_with_value(lexer.get_next(), 1.0);
}

#[test]
fn scan_digits_counts_from_a_position() {
    let text: Vec<char> = "12a345".chars().collect();
    assert_eq!(linecalc::lexer::scan_digits(&text, 0), 2);
    assert_eq!(linecalc::lexer::scan_digits(&text, 2), 0);
    assert_eq!(linecalc::lexer::scan_digits(&text, 3), 3);
    assert_eq!(linecalc::lexer::scan_digits(&text, 6), 0);
}

#[test]
fn lexer_error_is_framed() {
    let r = linecalc::lexer::error("oops");
    assert_eq!(r.unwrap_err().description, "Syntax error: oops.");
    assert_eq!(linecalc::errors::Error::new("x").description, "x");
    assert_eq!(linecalc::errors::Error::new("x").message(), "Syntax error: x");
}

#[test]
fn peek_reports_the_same_error_as_get_next() {
    let mut lexer = Lexer::new("x #");
    assert_variable_token_with_name(lexer.get_next(), 'x');
    let peeked = lexer.peek_next().unwrap_err().description;
    assert!(matches!(lexer.current(), Ok(Token::Variable('x'))));
    let got = lexer.get_next().unwrap_err().description;
    assert_eq!(peeked, got);
    assert_eq!(got, "Syntax error: unrecognized character: #.");
}
