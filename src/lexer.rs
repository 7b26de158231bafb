use crate::errors::Error;
use vstd::prelude::*;

verus! {

pub type LexerResult = Result<Token, Error>;

#[derive(Clone, Copy, Debug, PartialEq, Eq, Structural, Hash)]
pub enum OperatorType {
    Plus,
    Minus,
    Times,
    DividedBy,
    Power,
    LeftParen,
    RightParen,
    Comma,
    Assignment,
}

#[derive(Clone, Copy, Debug, PartialEq, Eq, Structural, Hash)]
pub enum FunctionType {
    Abs,
    ArcCos,
    ArcSin,
    ArcTan,
    Cos,
    Exp,
    Ln,
    Log,
    Max,
    Min,
    Pow,
    Sin,
    Sqrt,
    Tan,
}

#[derive(Clone, Copy, Debug, PartialEq, Eq, Structural, Hash)]
pub enum CommandType {
    Help,
    Quit,
}

/// A lexical token. A number literal keeps the text it was scanned from,
/// which is always of the form `digits ['.' digits+] ['e' digits+]`.
#[derive(Debug, PartialEq)]
pub enum Token {
    Command(CommandType),
    Literal(String),
    Operator(OperatorType),
    Variable(char),
    Function(FunctionType),
    Eol,
}

/// The mathematical value of a token.
pub enum TokenView {
    Command(CommandType),
    Literal(Seq<char>),
    Operator(OperatorType),
    Variable(char),
    Function(FunctionType),
    Eol,
}

impl View for Token {
    type V = TokenView;

    open spec fn view(&self) -> TokenView {
        match self {
            Token::Command(c) => TokenView::Command(*c),
            Token::Literal(s) => TokenView::Literal(s@),
            Token::Operator(o) => TokenView::Operator(*o),
            Token::Variable(v) => TokenView::Variable(*v),
            Token::Function(f) => TokenView::Function(*f),
            Token::Eol => TokenView::Eol,
        }
    }
}

impl Token {
    /// A copy of the token.
    pub fn duplicate(&self) -> (r: Token)
        ensures
            r@ == self@,
    {
        match self {
            Token::Command(c) => Token::Command(*c),
            Token::Literal(s) => Token::Literal(s.clone()),
            Token::Operator(o) => Token::Operator(*o),
            Token::Variable(v) => Token::Variable(*v),
            Token::Function(f) => Token::Function(*f),
            Token::Eol => Token::Eol,
        }
    }
}

// ---------------------------------------------------------------------------
// Character classes

pub open spec fn is_digit(c: char) -> bool {
    '0' <= c && c <= '9'
}

pub open spec fn is_lower(c: char) -> bool {
    'a' <= c && c <= 'z'
}

/// The characters with the Unicode `White_Space` property.
pub open spec fn is_white(c: char) -> bool {
    ('\u{9}' <= c && c <= '\u{d}') || c == ' ' || c == '\u{85}' || c == '\u{a0}' || c
        == '\u{1680}' || ('\u{2000}' <= c && c <= '\u{200a}') || c == '\u{2028}' || c
        == '\u{2029}' || c == '\u{202f}' || c == '\u{205f}' || c == '\u{3000}'
}

/// The operator that a character spells, if any.
pub open spec fn operator_of(c: char) -> Option<OperatorType> {
    if c == '+' {
        Some(OperatorType::Plus)
    } else if c == '-' {
        Some(OperatorType::Minus)
    } else if c == '*' {
        Some(OperatorType::Times)
    } else if c == '/' {
        Some(OperatorType::DividedBy)
    } else if c == '^' {
        Some(OperatorType::Power)
    } else if c == '(' {
        Some(OperatorType::LeftParen)
    } else if c == ')' {
        Some(OperatorType::RightParen)
    } else if c == ',' {
        Some(OperatorType::Comma)
    } else if c == '=' {
        Some(OperatorType::Assignment)
    } else {
        None
    }
}

pub open spec fn operator_char(o: OperatorType) -> char {
    match o {
        OperatorType::Plus => '+',
        OperatorType::Minus => '-',
        OperatorType::Times => '*',
        OperatorType::DividedBy => '/',
        OperatorType::Power => '^',
        OperatorType::LeftParen => '(',
        OperatorType::RightParen => ')',
        OperatorType::Comma => ',',
        OperatorType::Assignment => '=',
    }
}

impl OperatorType {
    /// The single character that spells the operator.
    pub fn spelling(&self) -> (r: char)
        ensures
            r == operator_char(*self),
            operator_of(r) == Some(*self),
    {
        match self {
            OperatorType::Plus => '+',
            OperatorType::Minus => '-',
            OperatorType::Times => '*',
            OperatorType::DividedBy => '/',
            OperatorType::Power => '^',
            OperatorType::LeftParen => '(',
            OperatorType::RightParen => ')',
            OperatorType::Comma => ',',
            OperatorType::Assignment => '=',
        }
    }
}

// ---------------------------------------------------------------------------
// Keyword tables, in the order in which names are tried

pub open spec fn command_table() -> Seq<CommandType> {
    seq![CommandType::Help, CommandType::Quit]
}

pub open spec fn function_table() -> Seq<FunctionType> {
    seq![
        FunctionType::Abs,
        FunctionType::ArcCos,
        FunctionType::ArcSin,
        FunctionType::ArcTan,
        FunctionType::Cos,
        FunctionType::Exp,
        FunctionType::Ln,
        FunctionType::Log,
        FunctionType::Max,
        FunctionType::Min,
        FunctionType::Pow,
        FunctionType::Sin,
        FunctionType::Sqrt,
        FunctionType::Tan,
    ]
}

pub open spec fn command_spelling(c: CommandType) -> Seq<char> {
    match c {
        CommandType::Help => "help"@,
        CommandType::Quit => "quit"@,
    }
}

pub open spec fn function_spelling(f: FunctionType) -> Seq<char> {
    match f {
        FunctionType::Abs => "abs"@,
        FunctionType::ArcCos => "arccos"@,
        FunctionType::ArcSin => "arcsin"@,
        FunctionType::ArcTan => "arctan"@,
        FunctionType::Cos => "cos"@,
        FunctionType::Exp => "exp"@,
        FunctionType::Ln => "ln"@,
        FunctionType::Log => "log"@,
        FunctionType::Max => "max"@,
        FunctionType::Min => "min"@,
        FunctionType::Pow => "pow"@,
        FunctionType::Sin => "sin"@,
        FunctionType::Sqrt => "sqrt"@,
        FunctionType::Tan => "tan"@,
    }
}

impl CommandType {
    pub fn spelling(&self) -> (r: &'static str)
        ensures
            r@ == command_spelling(*self),
    {
        match self {
            CommandType::Help => "help",
            CommandType::Quit => "quit",
        }
    }
}

impl FunctionType {
    pub fn spelling(&self) -> (r: &'static str)
        ensures
            r@ == function_spelling(*self),
    {
        match self {
            FunctionType::Abs => "abs",
            FunctionType::ArcCos => "arccos",
            FunctionType::ArcSin => "arcsin",
            FunctionType::ArcTan => "arctan",
            FunctionType::Cos => "cos",
            FunctionType::Exp => "exp",
            FunctionType::Ln => "ln",
            FunctionType::Log => "log",
            FunctionType::Max => "max",
            FunctionType::Min => "min",
            FunctionType::Pow => "pow",
            FunctionType::Sin => "sin",
            FunctionType::Sqrt => "sqrt",
            FunctionType::Tan => "tan",
        }
    }
}

pub proof fn lemma_spellings_nonempty()
    ensures
        forall|c: CommandType| #[trigger] command_spelling(c).len() > 0,
        forall|f: FunctionType| #[trigger] function_spelling(f).len() > 0,
{
    reveal_strlit("help");
    reveal_strlit("quit");
    reveal_strlit("abs");
    reveal_strlit("arccos");
    reveal_strlit("arcsin");
    reveal_strlit("arctan");
    reveal_strlit("cos");
    reveal_strlit("exp");
    reveal_strlit("ln");
    reveal_strlit("log");
    reveal_strlit("max");
    reveal_strlit("min");
    reveal_strlit("pow");
    reveal_strlit("sin");
    reveal_strlit("sqrt");
    reveal_strlit("tan");
}

// ---------------------------------------------------------------------------
// Scanning rules over the text as a sequence of characters

/// The text at `i` starts with `w`.
pub open spec fn starts_at(t: Seq<char>, i: int, w: Seq<char>) -> bool {
    0 <= i && i + w.len() <= t.len() && t.subrange(i, i + w.len()) == w
}

/// The first position at or after `i` that holds no whitespace.
pub open spec fn skip_white(t: Seq<char>, i: int) -> int
    decreases t.len() - i,
{
    if 0 <= i < t.len() && is_white(t[i]) {
        skip_white(t, i + 1)
    } else {
        i
    }
}

/// The first position at or after `i` that holds no digit.
pub open spec fn digits_end(t: Seq<char>, i: int) -> int
    decreases t.len() - i,
{
    if 0 <= i < t.len() && is_digit(t[i]) {
        digits_end(t, i + 1)
    } else {
        i
    }
}

/// Where a number literal that starts at `i` ends, or `None` when a '.' has
/// no digit after it. The exponent marker 'e' is part of the literal only
/// where a digit follows it.
pub open spec fn literal_end(t: Seq<char>, i: int) -> Option<int> {
    let a = digits_end(t, i);
    let b = if a < t.len() && t[a] == '.' {
        digits_end(t, a + 1)
    } else {
        a
    };
    if a < t.len() && t[a] == '.' && b == a + 1 {
        None
    } else if b + 1 < t.len() && t[b] == 'e' && is_digit(t[b + 1]) {
        Some(digits_end(t, b + 1))
    } else {
        Some(b)
    }
}

/// The first command of the table, from index `k` on, spelled at `i`.
pub open spec fn command_from(t: Seq<char>, i: int, k: int) -> Option<CommandType>
    decreases command_table().len() - k,
{
    if k < 0 || k >= command_table().len() {
        None
    } else if starts_at(t, i, command_spelling(command_table()[k])) {
        Some(command_table()[k])
    } else {
        command_from(t, i, k + 1)
    }
}

/// The first function of the table, from index `k` on, spelled at `i`.
pub open spec fn function_from(t: Seq<char>, i: int, k: int) -> Option<FunctionType>
    decreases function_table().len() - k,
{
    if k < 0 || k >= function_table().len() {
        None
    } else if starts_at(t, i, function_spelling(function_table()[k])) {
        Some(function_table()[k])
    } else {
        function_from(t, i, k + 1)
    }
}

/// A name at `i` (a lowercase letter stands there): a command, else a
/// function, else the single letter as a variable.
pub open spec fn scan_name(t: Seq<char>, i: int) -> (TokenView, int) {
    match command_from(t, i, 0) {
        Some(c) => (TokenView::Command(c), i + command_spelling(c).len()),
        None => match function_from(t, i, 0) {
            Some(f) => (TokenView::Function(f), i + function_spelling(f).len()),
            None => (TokenView::Variable(t[i]), i + 1),
        },
    }
}

/// The token that starts exactly at `i`, and the position after it;
/// `None` is a lexical error.
pub open spec fn scan_at(t: Seq<char>, i: int) -> Option<(TokenView, int)> {
    if i >= t.len() {
        Some((TokenView::Eol, i))
    } else if is_digit(t[i]) || t[i] == '.' {
        match literal_end(t, i) {
            Some(e) => Some((TokenView::Literal(t.subrange(i, e)), e)),
            None => None,
        }
    } else if operator_of(t[i]) is Some {
        Some((TokenView::Operator(operator_of(t[i])->Some_0), i + 1))
    } else if is_lower(t[i]) {
        Some(scan_name(t, i))
    } else {
        None
    }
}

/// The next token after position `i`, leading whitespace skipped.
pub open spec fn next_token(t: Seq<char>, i: int) -> Option<(TokenView, int)> {
    scan_at(t, skip_white(t, i))
}

/// The description of the lexical error at `i`, where `scan_at` fails.
pub open spec fn lex_failure(t: Seq<char>, i: int) -> Seq<char> {
    if is_digit(t[i]) || t[i] == '.' {
        "Syntax error: "@ + "No digits following '.'"@ + "."@
    } else {
        "Syntax error: "@ + "unrecognized character: "@ + seq![t[i]] + "."@
    }
}

/// The tokens of the text from position `i` on, up to and including the
/// end-of-input token; or the description of the first lexical error.
pub open spec fn tokens_from(t: Seq<char>, i: nat) -> Result<Seq<TokenView>, Seq<char>>
    decreases t.len() - i,
    via tokens_from_decreases
{
    match next_token(t, i as int) {
        None => Err(lex_failure(t, skip_white(t, i as int))),
        Some((tok, e)) => if tok is Eol {
            Ok(seq![TokenView::Eol])
        } else {
            match tokens_from(t, e as nat) {
                Ok(rest) => Ok(seq![tok] + rest),
                Err(d) => Err(d),
            }
        },
    }
}

/// The tokens of a whole text.
pub open spec fn tokens_of(t: Seq<char>) -> Result<Seq<TokenView>, Seq<char>> {
    tokens_from(t, 0)
}

/// A token sequence that ends with, and only with, its end-of-input token.
pub open spec fn terminated(ts: Seq<TokenView>) -> bool {
    &&& ts.len() > 0
    &&& ts.last() is Eol
    &&& forall|k: int| 0 <= k < ts.len() - 1 ==> !(#[trigger] ts[k] is Eol)
}

/// Tokenizing stops at the end of input, and only there.
pub proof fn lemma_tokens_terminated(t: Seq<char>, i: nat)
    ensures
        tokens_from(t, i) matches Ok(ts) ==> terminated(ts),
    decreases t.len() - i,
{
    lemma_next_token_advances(t, i as int);
    if let Some((tok, e)) = next_token(t, i as int) {
        if !(tok is Eol) {
            lemma_tokens_terminated(t, e as nat);
            if let Ok(rest) = tokens_from(t, e as nat) {
                let ts = seq![tok] + rest;
                assert forall|k: int| 0 <= k < ts.len() - 1 implies !(#[trigger] ts[k] is Eol) by {
                    if k > 0 {
                        assert(ts[k] == rest[k - 1]);
                    }
                }
                assert(ts.last() == rest.last());
            }
        }
    }
}

pub open spec fn views(ts: Seq<Token>) -> Seq<TokenView> {
    ts.map_values(|tok: Token| tok@)
}

#[via_fn]
proof fn tokens_from_decreases(t: Seq<char>, i: nat) {
    lemma_next_token_advances(t, i as int);
}

proof fn lemma_skip_white_bounds(t: Seq<char>, i: int)
    ensures
        i <= skip_white(t, i),
        0 <= i <= t.len() ==> skip_white(t, i) <= t.len(),
    decreases t.len() - i,
{
    if 0 <= i < t.len() && is_white(t[i]) {
        lemma_skip_white_bounds(t, i + 1);
    }
}

proof fn lemma_digits_end_bounds(t: Seq<char>, i: int)
    ensures
        i <= digits_end(t, i),
        0 <= i <= t.len() ==> digits_end(t, i) <= t.len(),
        0 <= i < t.len() && is_digit(t[i]) ==> digits_end(t, i) > i,
    decreases t.len() - i,
{
    if 0 <= i < t.len() && is_digit(t[i]) {
        lemma_digits_end_bounds(t, i + 1);
    }
}

proof fn lemma_command_from_matches(t: Seq<char>, i: int, k: int)
    ensures
        command_from(t, i, k) matches Some(c) ==> starts_at(t, i, command_spelling(c)),
    decreases command_table().len() - k,
{
    if 0 <= k < command_table().len() {
        lemma_command_from_matches(t, i, k + 1);
    }
}

proof fn lemma_function_from_matches(t: Seq<char>, i: int, k: int)
    ensures
        function_from(t, i, k) matches Some(f) ==> starts_at(t, i, function_spelling(f)),
    decreases function_table().len() - k,
{
    if 0 <= k < function_table().len() {
        lemma_function_from_matches(t, i, k + 1);
    }
}

/// A token other than the end of input takes at least one character.
pub proof fn lemma_next_token_advances(t: Seq<char>, i: int)
    requires
        0 <= i,
    ensures
        next_token(t, i) matches Some((tok, e)) ==> i <= e <= if i <= t.len() {
            t.len() as int
        } else {
            i
        } && (!(tok is Eol) ==> i < e),
{
    let j = skip_white(t, i);
    lemma_skip_white_bounds(t, i);
    if 0 <= j < t.len() {
        if is_digit(t[j]) || t[j] == '.' {
            let a = digits_end(t, j);
            lemma_digits_end_bounds(t, j);
            lemma_digits_end_bounds(t, a + 1);
            let b = if a < t.len() && t[a] == '.' {
                digits_end(t, a + 1)
            } else {
                a
            };
            lemma_digits_end_bounds(t, b + 1);
        } else if operator_of(t[j]) is None && is_lower(t[j]) {
            lemma_spellings_nonempty();
            lemma_command_from_matches(t, j, 0);
            lemma_function_from_matches(t, j, 0);
        }
    }
}

// ---------------------------------------------------------------------------
// Outside calls

/// Relies on `str::chars`: the characters of the string, in order.
#[verifier::external_body]
fn chars_of(s: &str) -> (r: Vec<char>)
    ensures
        r@ == s@,
{
    s.chars().collect()
}

/// Relies on `FromIterator<char>` for `String`: a string of the given
/// characters, in order.
#[verifier::external_body]
fn string_of(cs: &Vec<char>, from: usize, to: usize) -> (r: String)
    requires
        from <= to <= cs.len(),
    ensures
        r@ == cs@.subrange(from as int, to as int),
{
    cs[from..to].iter().collect()
}

/// Relies on `char::is_whitespace`: true exactly for the characters with
/// the Unicode `White_Space` property.
#[verifier::external_body]
fn is_whitespace(c: char) -> (r: bool)
    ensures
        r == is_white(c),
{
    c.is_whitespace()
}

/// A string of one character.
pub fn char_string(c: char) -> (r: String)
    ensures
        r@ == seq![c],
{
    let cs = vec![c];
    let r = string_of(&cs, 0, 1);
    assert(cs@.subrange(0, 1) =~= seq![c]);
    r
}

fn is_ascii_digit(c: char) -> (r: bool)
    ensures
        r == is_digit(c),
{
    '0' <= c && c <= '9'
}

fn is_ascii_lowercase(c: char) -> (r: bool)
    ensures
        r == is_lower(c),
{
    'a' <= c && c <= 'z'
}

fn operator_for(c: char) -> (r: Option<OperatorType>)
    ensures
        r == operator_of(c),
{
    if c == '+' {
        Some(OperatorType::Plus)
    } else if c == '-' {
        Some(OperatorType::Minus)
    } else if c == '*' {
        Some(OperatorType::Times)
    } else if c == '/' {
        Some(OperatorType::DividedBy)
    } else if c == '^' {
        Some(OperatorType::Power)
    } else if c == '(' {
        Some(OperatorType::LeftParen)
    } else if c == ')' {
        Some(OperatorType::RightParen)
    } else if c == ',' {
        Some(OperatorType::Comma)
    } else if c == '=' {
        Some(OperatorType::Assignment)
    } else {
        None
    }
}

/// The number of digits in `text` at or following position `from`.
pub fn scan_digits(text: &Vec<char>, from: usize) -> (r: usize)
    requires
        from <= text.len(),
    ensures
        from + r == digits_end(text@, from as int),
        from + r <= text.len(),
{
    let mut i: usize = from;
    while i < text.len() && is_ascii_digit(text[i])
        invariant
            from <= i <= text.len(),
            digits_end(text@, from as int) == digits_end(text@, i as int),
        decreases text.len() - i,
    {
        i = i + 1;
    }
    i - from
}

/// Whether `text` at `i` starts with `w`.
fn starts_with_at(text: &Vec<char>, i: usize, w: &str) -> (r: bool)
    requires
        i <= text.len(),
    ensures
        r == starts_at(text@, i as int, w@),
{
    let n = w.unicode_len();
    if n > text.len() - i {
        return false;
    }
    let mut k: usize = 0;
    while k < n
        invariant
            n == w@.len(),
            i + n <= text.len(),
            0 <= k <= n,
            forall|m: int| 0 <= m < k ==> text@[i + m] == w@[m],
        decreases n - k,
    {
        if text[i + k] != w.get_char(k) {
            assert(text@.subrange(i as int, i + n)[k as int] != w@[k as int]);
            return false;
        }
        k = k + 1;
    }
    assert(text@.subrange(i as int, i + n) =~= w@);
    true
}

/// A lexical error, with its description framed as the lexer frames it.
pub fn error(description: &str) -> (r: LexerResult)
    ensures
        r matches Err(e) && e.description@ == "Syntax error: "@ + description@ + "."@,
{
    let text = String::from_str("Syntax error: ").concat(description).concat(".");
    Err(Error { description: text })
}

/// A scanner over one line of text that hands out one token at a time.
pub struct Lexer {
    text: Vec<char>,
    pos: usize,
    current_token: Token,
}

impl Lexer {
    /// The characters of the line.
    pub closed spec fn text(&self) -> Seq<char> {
        self.text@
    }

    /// The position of the first character not yet scanned.
    pub closed spec fn position(&self) -> int {
        self.pos as int
    }

    /// The token that was produced last.
    pub closed spec fn current_view(&self) -> TokenView {
        self.current_token@
    }

    pub closed spec fn wf(&self) -> bool {
        self.pos <= self.text.len()
    }

    pub fn new(s: &str) -> (r: Self)
        ensures
            r.wf(),
            r.text() == s@,
            r.position() == 0,
            r.current_view() == TokenView::Eol,
    {
        Lexer { text: chars_of(s), pos: 0, current_token: Token::Eol }
    }

    pub fn current(&self) -> (r: LexerResult)
        ensures
            r matches Ok(tok) && tok@ == self.current_view(),
    {
        Ok(self.current_token.duplicate())
    }

    /// Scans and returns the next token.
    pub fn get_next(&mut self) -> (r: LexerResult)
        requires
            old(self).wf(),
        ensures
            final(self).wf(),
            final(self).text() == old(self).text(),
            match next_token(old(self).text(), old(self).position()) {
                Some((tok, e)) => r matches Ok(t) && t@ == tok && final(self).position() == e
                    && final(self).current_view() == tok,
                None => r matches Err(err) && err.description@ == lex_failure(
                    old(self).text(),
                    skip_white(old(self).text(), old(self).position()),
                ) && final(self).current_view() == old(self).current_view(),
            },
    {
        self.skip_whitespace();
        if self.pos >= self.text.len() {
            self.current_token = Token::Eol;
            return Ok(Token::Eol);
        }
        let first = self.text[self.pos];
        let tok = if is_ascii_digit(first) || first == '.' {
            self.get_literal()?
        } else if let Some(op) = operator_for(first) {
            self.pos = self.pos + 1;
            Token::Operator(op)
        } else if is_ascii_lowercase(first) {
            self.get_name()
        } else {
            let shown = char_string(first);
            return error(String::from_str("unrecognized character: ").concat(shown.as_str()).as_str());
        };
        self.current_token = tok.duplicate();
        Ok(tok)
    }

    /// The next token, without moving to it.
    pub fn peek_next(&mut self) -> (r: LexerResult)
        requires
            old(self).wf(),
        ensures
            final(self).wf(),
            final(self).text() == old(self).text(),
            final(self).position() == old(self).position(),
            final(self).current_view() == old(self).current_view(),
            match next_token(old(self).text(), old(self).position()) {
                Some((tok, e)) => r matches Ok(t) && t@ == tok,
                None => r matches Err(err) && err.description@ == lex_failure(
                    old(self).text(),
                    skip_white(old(self).text(), old(self).position()),
                ),
            },
    {
        let saved_pos = self.pos;
        let saved_token = self.current_token.duplicate();
        let next = self.get_next();
        self.pos = saved_pos;
        self.current_token = saved_token;
        next
    }

    fn skip_whitespace(&mut self)
        requires
            old(self).wf(),
        ensures
            final(self).wf(),
            final(self).text == old(self).text,
            final(self).current_token == old(self).current_token,
            final(self).pos == skip_white(old(self).text@, old(self).pos as int),
    {
        while self.pos < self.text.len() && is_whitespace(self.text[self.pos])
            invariant
                self.wf(),
                self.text == old(self).text,
                self.current_token == old(self).current_token,
                skip_white(self.text@, old(self).pos as int) == skip_white(
                    self.text@,
                    self.pos as int,
                ),
            decreases self.text.len() - self.pos,
        {
            self.pos = self.pos + 1;
        }
    }

    fn get_literal(&mut self) -> (r: LexerResult)
        requires
            old(self).wf(),
            old(self).pos < old(self).text.len(),
            is_digit(old(self).text@[old(self).pos as int]) || old(self).text@[old(self).pos as int]
                == '.',
        ensures
            final(self).wf(),
            final(self).text == old(self).text,
            final(self).current_token == old(self).current_token,
            match literal_end(old(self).text@, old(self).pos as int) {
                Some(e) => r matches Ok(t) && t@ == TokenView::Literal(
                    old(self).text@.subrange(old(self).pos as int, e),
                ) && final(self).pos == e,
                None => r matches Err(err) && err.description@ == lex_failure(
                    old(self).text@,
                    old(self).pos as int,
                ),
            },
    {
        let start = self.pos;
        let mut end = start + scan_digits(&self.text, start);
        if end < self.text.len() && self.text[end] == '.' {
            let decimals = scan_digits(&self.text, end + 1);
            if decimals == 0 {
                return error("No digits following '.'");
            }
            end = end + 1 + decimals;
        }
        if end < self.text.len() && self.text[end] == 'e' && end + 1 < self.text.len() && is_ascii_digit(self.text[end + 1]) {
            end = end + 1 + scan_digits(&self.text, end + 1);
        }
        self.pos = end;
        Ok(Token::Literal(string_of(&self.text, start, end)))
    }

    fn get_name(&mut self) -> (r: Token)
        requires
            old(self).wf(),
            old(self).pos < old(self).text.len(),
        ensures
            final(self).wf(),
            final(self).text == old(self).text,
            final(self).current_token == old(self).current_token,
            (r@, final(self).pos as int) == scan_name(old(self).text@, old(self).pos as int),
    {
        let commands = vec![CommandType::Help, CommandType::Quit];
        let functions = vec![
            FunctionType::Abs,
            FunctionType::ArcCos,
            FunctionType::ArcSin,
            FunctionType::ArcTan,
            FunctionType::Cos,
            FunctionType::Exp,
            FunctionType::Ln,
            FunctionType::Log,
            FunctionType::Max,
            FunctionType::Min,
            FunctionType::Pow,
            FunctionType::Sin,
            FunctionType::Sqrt,
            FunctionType::Tan,
        ];
        assert(commands@ == command_table());
        assert(functions@ == function_table());
        let mut k: usize = 0;
        while k < commands.len()
            invariant
                self.text == old(self).text,
                self.pos == old(self).pos,
                self.current_token == old(self).current_token,
                self.pos < self.text.len(),
                commands@ == command_table(),
                0 <= k <= commands.len(),
                command_from(self.text@, self.pos as int, 0) == command_from(
                    self.text@,
                    self.pos as int,
                    k as int,
                ),
            decreases commands.len() - k,
        {
            let spelling = commands[k].spelling();
            if starts_with_at(&self.text, self.pos, spelling) {
                self.pos = self.pos + spelling.unicode_len();
                return Token::Command(commands[k]);
            }
            k = k + 1;
        }
        let mut k: usize = 0;
        while k < functions.len()
            invariant
                self.text == old(self).text,
                self.pos == old(self).pos,
                self.current_token == old(self).current_token,
                self.pos < self.text.len(),
                functions@ == function_table(),
                command_from(self.text@, self.pos as int, 0) is None,
                0 <= k <= functions.len(),
                function_from(self.text@, self.pos as int, 0) == function_from(
                    self.text@,
                    self.pos as int,
                    k as int,
                ),
            decreases functions.len() - k,
        {
            let spelling = functions[k].spelling();
            if starts_with_at(&self.text, self.pos, spelling) {
                self.pos = self.pos + spelling.unicode_len();
                return Token::Function(functions[k]);
            }
            k = k + 1;
        }
        let v = self.text[self.pos];
        self.pos = self.pos + 1;
        Token::Variable(v)
    }
}

/// The tokens of a whole line, up to and including the end-of-input token.
pub fn tokenize(s: &str) -> (r: Result<Vec<Token>, Error>)
    ensures
        match tokens_of(s@) {
            Ok(ts) => r matches Ok(v) && views(v@) == ts,
            Err(d) => r matches Err(e) && e.description@ == d,
        },
{
    let mut lexer = Lexer::new(s);
    let mut out: Vec<Token> = Vec::new();
    loop
        invariant
            lexer.wf(),
            lexer.text() == s@,
            0 <= lexer.position(),
            match tokens_from(s@, lexer.position() as nat) {
                Ok(rest) => tokens_of(s@) == Ok::<_, Seq<char>>(views(out@) + rest),
                Err(d) => tokens_of(s@) == Err::<Seq<TokenView>, _>(d),
            },
        decreases s@.len() - lexer.position(),
    {
        proof {
            lemma_next_token_advances(s@, lexer.position());
        }
        let ghost before = out@;
        let tok = lexer.get_next()?;
        let done = matches!(tok, Token::Eol);
        out.push(tok);
        assert(views(out@) =~= views(before) + seq![out@.last()@]);
        if done {
            return Ok(out);
        }
        proof {
            if let Ok(rest) = tokens_from(s@, lexer.position() as nat) {
                assert(views(before) + (seq![out@.last()@] + rest) =~= views(out@) + rest);
            }
        }
    }
}

} // verus!
