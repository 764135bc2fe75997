//! The parser: recursive descent over tokens, with precedence climbing for
//! binary operators. Assignment is right-associative; every other binary
//! operator is left-associative.
use crate::ast::{BinaryOperator, Block, Declaration, Expr, Function, Program, Statement, UnaryOperator};
use crate::error::{CompileError, Expectation};
use crate::token::Token;
use vstd::prelude::*;

verus! {

// ---------------------------------------------------------------------------
// Integer constants

pub open spec fn is_digit(c: char) -> bool {
    '0' <= c && c <= '9'
}

pub open spec fn all_digits(s: Seq<char>) -> bool {
    forall|i: int| 0 <= i < s.len() ==> is_digit(#[trigger] s[i])
}

/// The value of a string of decimal digits.
pub open spec fn digits_value(s: Seq<char>) -> int
    decreases s.len(),
{
    if s.len() == 0 {
        0
    } else {
        digits_value(s.drop_last()) * 10 + (s.last() as int - '0' as int)
    }
}

/// The integer that `s` spells: an optional sign and one or more decimal
/// digits, as Rust's `str::parse` reads it.
pub open spec fn integer_value(s: Seq<char>) -> Option<int> {
    if s.len() > 0 && (s[0] == '+' || s[0] == '-') {
        let d = s.skip(1);
        if d.len() > 0 && all_digits(d) {
            Some(if s[0] == '-' { -digits_value(d) } else { digits_value(d) })
        } else {
            None
        }
    } else if s.len() > 0 && all_digits(s) {
        Some(digits_value(s))
    } else {
        None
    }
}

/// The 32-bit signed integer that `s` spells, if it is one and fits.
pub open spec fn parse_int(s: Seq<char>) -> Option<i32> {
    match integer_value(s) {
        Some(v) => if i32::MIN <= v <= i32::MAX {
            Some(v as i32)
        } else {
            None
        },
        None => None,
    }
}

proof fn lemma_digits_value_nonneg(s: Seq<char>)
    requires
        all_digits(s),
    ensures
        digits_value(s) >= 0,
    decreases s.len(),
{
    if s.len() > 0 {
        lemma_digits_value_nonneg(s.drop_last());
    }
}

/// Reads a 32-bit signed integer in decimal, with an optional sign.
fn parse_i32(text: &String) -> (r: Option<i32>)
    ensures
        r == parse_int(text@),
{
    let s = text.as_str();
    let len = s.unicode_len();
    if len == 0 {
        return None;
    }
    let first = s.get_char(0);
    let negative = first == '-';
    let start: usize = if first == '+' || first == '-' { 1 } else { 0 };
    if start == len {
        return None;
    }
    let ghost d = s@.skip(start as int);
    let limit: i64 = 2147483648;
    let mut acc: i64 = 0;
    let mut over = false;
    let mut i: usize = start;
    while i < len
        invariant
            len == s@.len(),
            s@ == text@,
            d == s@.skip(start as int),
            limit == 2147483648,
            0 < len,
            start < len,
            start == 1 <==> (s@[0] == '+' || s@[0] == '-'),
            start == 0 || start == 1,
            negative == (s@[0] == '-'),
            start <= i <= len,
            all_digits(s@.subrange(start as int, i as int)),
            !over ==> acc == digits_value(s@.subrange(start as int, i as int)) && 0 <= acc <= limit,
            over ==> digits_value(s@.subrange(start as int, i as int)) > limit,
        decreases len - i,
    {
        let c = s.get_char(i);
        if c < '0' || c > '9' {
            proof {
                assert(!is_digit(d[i - start]));
                assert(start == 0 ==> d =~= s@);
            }
            return None;
        }
        let ghost before = s@.subrange(start as int, i as int);
        let ghost after = s@.subrange(start as int, i + 1);
        proof {
            assert(after.drop_last() =~= before);
            assert(after.last() == c);
            assert(all_digits(after));
            lemma_digits_value_nonneg(before);
        }
        let digit: i64 = (c as u32) as i64 - ('0' as u32) as i64;
        assert(0 <= digit <= 9);
        assert(digit == c as int - '0' as int);
        if !over {
            if acc * 10 + digit > limit {
                over = true;
            } else {
                acc = acc * 10 + digit;
            }
        }
        i += 1;
    }
    proof {
        assert(s@.subrange(start as int, len as int) =~= d);
        assert(start == 0 ==> d =~= s@);
    }
    if over {
        return None;
    }
    if negative {
        Some((-acc) as i32)
    } else if acc > 2147483647 {
        None
    } else {
        Some(acc as i32)
    }
}

// ---------------------------------------------------------------------------
// The grammar

/// The binding strength of a binary operator token.
pub open spec fn precedence(t: Token) -> Option<u8> {
    match t {
        Token::Star | Token::Slash | Token::Percent => Some(50),
        Token::Plus | Token::Minus => Some(45),
        Token::LessLess | Token::GreaterGreater => Some(40),
        Token::Less | Token::LessEqual | Token::Greater | Token::GreaterEqual => Some(35),
        Token::EqualEqual | Token::ExclaimEqual => Some(30),
        Token::Ampersand => Some(25),
        Token::Caret => Some(20),
        Token::Pipe => Some(15),
        Token::AmpAmp => Some(10),
        Token::PipePipe => Some(5),
        Token::Equal => Some(1),
        _ => None,
    }
}

/// The binary operator a token stands for (assignment is not one).
pub open spec fn binary_operator(t: Token) -> BinaryOperator {
    match t {
        Token::Minus => BinaryOperator::Subtract,
        Token::Star => BinaryOperator::Multiply,
        Token::Slash => BinaryOperator::Divide,
        Token::Percent => BinaryOperator::Modulo,
        Token::Ampersand => BinaryOperator::BitwiseAnd,
        Token::Pipe => BinaryOperator::BitwiseOr,
        Token::Caret => BinaryOperator::BitwiseXor,
        Token::LessLess => BinaryOperator::LeftShift,
        Token::GreaterGreater => BinaryOperator::RightShift,
        Token::AmpAmp => BinaryOperator::LogicalAnd,
        Token::PipePipe => BinaryOperator::LogicalOr,
        Token::EqualEqual => BinaryOperator::Equal,
        Token::ExclaimEqual => BinaryOperator::NotEqual,
        Token::Less => BinaryOperator::LessThan,
        Token::LessEqual => BinaryOperator::LessOrEqual,
        Token::Greater => BinaryOperator::GreaterThan,
        Token::GreaterEqual => BinaryOperator::GreaterOrEqual,
        _ => BinaryOperator::Add,
    }
}

/// The result of parsing from a position: the value and the position after it.
pub type Parsed<T> = Result<(T, int), CompileError>;

pub open spec fn token_at(toks: Seq<Token>, pos: int, t: Token) -> bool {
    0 <= pos < toks.len() && toks[pos] == t
}

/// A factor at `pos`: a constant, a variable, a unary operator applied to a
/// factor, or a parenthesised expression.
pub open spec fn factor_at(toks: Seq<Token>, pos: int) -> Parsed<Expr>
    decreases toks.len() - pos, 0int,
{
    if pos < 0 || pos >= toks.len() {
        Err(CompileError::Expected(Expectation::Factor))
    } else {
        match toks[pos] {
            Token::Constant(text) => match parse_int(text@) {
                Some(n) => Ok((Expr::Constant(n), pos + 1)),
                None => Err(CompileError::InvalidInteger(text)),
            },
            Token::Identifier(name) => Ok((Expr::Variable(name), pos + 1)),
            Token::Tilde => unary_at(toks, pos + 1, UnaryOperator::Complement),
            Token::Minus => unary_at(toks, pos + 1, UnaryOperator::Negate),
            Token::Exclaim => unary_at(toks, pos + 1, UnaryOperator::LogicalNot),
            Token::OpenParen => match expr_at(toks, pos + 1, 0) {
                Ok((e, p)) => if token_at(toks, p, Token::CloseParen) {
                    Ok((e, p + 1))
                } else {
                    Err(CompileError::Expected(Expectation::CloseParen))
                },
                Err(e) => Err(e),
            },
            _ => Err(CompileError::Expected(Expectation::Factor)),
        }
    }
}

/// The unary operator `op` applied to the factor at `pos`.
pub open spec fn unary_at(toks: Seq<Token>, pos: int, op: UnaryOperator) -> Parsed<Expr>
    decreases toks.len() - pos, 1int,
{
    match factor_at(toks, pos) {
        Ok((e, p)) => Ok((Expr::Unary(op, Box::new(e)), p)),
        Err(e) => Err(e),
    }
}

/// An expression at `pos` whose binary operators all bind at least as
/// tightly as `min`.
pub open spec fn expr_at(toks: Seq<Token>, pos: int, min: u8) -> Parsed<Expr>
    decreases toks.len() - pos, 2int,
{
    if pos < 0 || pos > toks.len() {
        Err(CompileError::Expected(Expectation::Factor))
    } else {
        match factor_at(toks, pos) {
            Ok((left, p)) => if pos < p <= toks.len() {
                climb(toks, p, min, left)
            } else {
                Err(CompileError::Expected(Expectation::Factor))
            },
            Err(e) => Err(e),
        }
    }
}

/// Extends `left` with the binary operators from `pos` on that bind at
/// least as tightly as `min`. The right operand of `=` is parsed at the
/// same precedence (right-associative), that of any other operator at one
/// higher (left-associative).
pub open spec fn climb(toks: Seq<Token>, pos: int, min: u8, left: Expr) -> Parsed<Expr>
    decreases toks.len() - pos, 1int,
{
    if 0 <= pos < toks.len() && precedence(toks[pos]) is Some && precedence(toks[pos])->0 >= min {
        let prec = precedence(toks[pos])->0;
        let assign = toks[pos] == Token::Equal;
        match expr_at(toks, pos + 1, if assign { prec } else { (prec + 1) as u8 }) {
            Ok((right, p)) => if pos < p <= toks.len() {
                climb(
                    toks,
                    p,
                    min,
                    if assign {
                        Expr::Assignment(Box::new(left), Box::new(right))
                    } else {
                        Expr::Binary(binary_operator(toks[pos]), Box::new(left), Box::new(right))
                    },
                )
            } else {
                Err(CompileError::Expected(Expectation::Factor))
            },
            Err(e) => Err(e),
        }
    } else {
        Ok((left, pos))
    }
}

/// `t` at `pos`, or the error naming what was missing.
pub open spec fn expect_at(toks: Seq<Token>, pos: int, t: Token, missing: Expectation) -> Result<
    int,
    CompileError,
> {
    if token_at(toks, pos, t) {
        Ok(pos + 1)
    } else {
        Err(CompileError::Expected(missing))
    }
}

/// A declaration at `pos`: `int name;` or `int name = expr;`.
pub open spec fn declaration_at(toks: Seq<Token>, pos: int) -> Parsed<Declaration> {
    if !token_at(toks, pos, Token::Int) {
        Err(CompileError::Expected(Expectation::IntKeyword))
    } else if !(0 <= pos + 1 < toks.len() && toks[pos + 1] is Identifier) {
        Err(CompileError::Expected(Expectation::VariableName))
    } else {
        let name = toks[pos + 1]->Identifier_0;
        if token_at(toks, pos + 2, Token::Equal) {
            match expr_at(toks, pos + 3, 0) {
                Ok((e, p)) => match expect_at(toks, p, Token::Semicolon, Expectation::Semicolon) {
                    Ok(q) => Ok((Declaration { name, init: Some(e) }, q)),
                    Err(err) => Err(err),
                },
                Err(err) => Err(err),
            }
        } else {
            match expect_at(toks, pos + 2, Token::Semicolon, Expectation::Semicolon) {
                Ok(q) => Ok((Declaration { name, init: None }, q)),
                Err(err) => Err(err),
            }
        }
    }
}

/// A statement at `pos`: `return expr;`, `;`, or `expr;`.
pub open spec fn statement_at(toks: Seq<Token>, pos: int) -> Parsed<Statement> {
    if token_at(toks, pos, Token::Return) {
        match expr_at(toks, pos + 1, 0) {
            Ok((e, p)) => match expect_at(toks, p, Token::Semicolon, Expectation::Semicolon) {
                Ok(q) => Ok((Statement::Return(e), q)),
                Err(err) => Err(err),
            },
            Err(err) => Err(err),
        }
    } else if token_at(toks, pos, Token::Semicolon) {
        Ok((Statement::Null, pos + 1))
    } else {
        match expr_at(toks, pos, 0) {
            Ok((e, p)) => match expect_at(toks, p, Token::Semicolon, Expectation::Semicolon) {
                Ok(q) => Ok((Statement::Expression(e), q)),
                Err(err) => Err(err),
            },
            Err(err) => Err(err),
        }
    }
}

/// A block item at `pos`: a declaration when it starts with `int`.
pub open spec fn block_item_at(toks: Seq<Token>, pos: int) -> Parsed<Block> {
    if token_at(toks, pos, Token::Int) {
        match declaration_at(toks, pos) {
            Ok((d, p)) => Ok((Block::Declare(d), p)),
            Err(e) => Err(e),
        }
    } else {
        match statement_at(toks, pos) {
            Ok((s, p)) => Ok((Block::State(s), p)),
            Err(e) => Err(e),
        }
    }
}

/// The block items from `pos` up to the closing brace.
pub open spec fn block_items_at(toks: Seq<Token>, pos: int) -> Parsed<Seq<Block>>
    decreases toks.len() - pos,
{
    if token_at(toks, pos, Token::CloseBrace) || pos < 0 || pos > toks.len() {
        Ok((Seq::empty(), pos))
    } else {
        match block_item_at(toks, pos) {
            Ok((b, p)) => if pos < p <= toks.len() {
                match block_items_at(toks, p) {
                    Ok((bs, q)) => Ok((seq![b] + bs, q)),
                    Err(e) => Err(e),
                }
            } else {
                Err(CompileError::Expected(Expectation::CloseBrace))
            },
            Err(e) => Err(e),
        }
    }
}

/// A function as the grammar reads it: its name and body.
pub ghost struct ParsedFunction {
    pub name: String,
    pub body: Seq<Block>,
}

/// `int name ( void ) { items }` at the start of `toks`, and the position
/// after it.
pub open spec fn function_at(toks: Seq<Token>) -> Parsed<ParsedFunction> {
    if !token_at(toks, 0, Token::Int) {
        Err(CompileError::Expected(Expectation::IntKeyword))
    } else if !(1 < toks.len() && toks[1] is Identifier) {
        Err(CompileError::Expected(Expectation::FunctionName))
    } else if !token_at(toks, 2, Token::OpenParen) {
        Err(CompileError::Expected(Expectation::OpenParen))
    } else if !token_at(toks, 3, Token::Void) {
        Err(CompileError::Expected(Expectation::Void))
    } else if !token_at(toks, 4, Token::CloseParen) {
        Err(CompileError::Expected(Expectation::CloseParen))
    } else if !token_at(toks, 5, Token::OpenBrace) {
        Err(CompileError::Expected(Expectation::OpenBrace))
    } else {
        match block_items_at(toks, 6) {
            Ok((body, p)) => match expect_at(toks, p, Token::CloseBrace, Expectation::CloseBrace) {
                Ok(q) => Ok((ParsedFunction { name: toks[1]->Identifier_0, body }, q)),
                Err(e) => Err(e),
            },
            Err(e) => Err(e),
        }
    }
}

/// The program that `toks` spell: one function, then `EOF`.
pub open spec fn program_of(toks: Seq<Token>) -> Result<ParsedFunction, CompileError> {
    match function_at(toks) {
        Ok((f, p)) => match expect_at(toks, p, Token::EOF, Expectation::EndOfFile) {
            Ok(_) => Ok(f),
            Err(e) => Err(e),
        },
        Err(e) => Err(e),
    }
}

// ---------------------------------------------------------------------------
// Laws of the grammar

/// A left-associative binary operator: any binary operator but `=`.
pub open spec fn left_associative(t: Token) -> bool {
    precedence(t) is Some && t != Token::Equal
}

/// `a op b op c`, for a left-associative `op`, groups as `(a op b) op c`.
pub proof fn left_operators_group_left(t: Token, a: String, b: String, c: String)
    requires
        left_associative(t),
    ensures
        expr_at(
            seq![Token::Identifier(a), t, Token::Identifier(b), t, Token::Identifier(c)],
            0,
            0,
        ) == Ok::<(Expr, int), CompileError>((
            Expr::Binary(
                binary_operator(t),
                Box::new(
                    Expr::Binary(
                        binary_operator(t),
                        Box::new(Expr::Variable(a)),
                        Box::new(Expr::Variable(b)),
                    ),
                ),
                Box::new(Expr::Variable(c)),
            ),
            5,
        )),
{
    let toks = seq![Token::Identifier(a), t, Token::Identifier(b), t, Token::Identifier(c)];
    let p = precedence(t)->0;
    let op = binary_operator(t);
    let va = Expr::Variable(a);
    let vb = Expr::Variable(b);
    let vc = Expr::Variable(c);
    let ab = Expr::Binary(op, Box::new(va), Box::new(vb));
    let abc = Expr::Binary(op, Box::new(ab), Box::new(vc));
    assert(factor_at(toks, 0) == Ok::<(Expr, int), CompileError>((va, 1)));
    assert(factor_at(toks, 2) == Ok::<(Expr, int), CompileError>((vb, 3)));
    assert(factor_at(toks, 4) == Ok::<(Expr, int), CompileError>((vc, 5)));
    assert(climb(toks, 5, (p + 1) as u8, vc) == Ok::<(Expr, int), CompileError>((vc, 5)));
    assert(expr_at(toks, 4, (p + 1) as u8) == Ok::<(Expr, int), CompileError>((vc, 5)));
    assert(climb(toks, 3, (p + 1) as u8, vb) == Ok::<(Expr, int), CompileError>((vb, 3)));
    assert(expr_at(toks, 2, (p + 1) as u8) == Ok::<(Expr, int), CompileError>((vb, 3)));
    assert(climb(toks, 5, 0, abc) == Ok::<(Expr, int), CompileError>((abc, 5)));
    assert(climb(toks, 3, 0, ab) == Ok::<(Expr, int), CompileError>((abc, 5)));
    assert(climb(toks, 1, 0, va) == Ok::<(Expr, int), CompileError>((abc, 5)));
}

/// `a = b = c` groups as `a = (b = c)`.
pub proof fn assignment_groups_right(a: String, b: String, c: String)
    ensures
        expr_at(
            seq![
                Token::Identifier(a),
                Token::Equal,
                Token::Identifier(b),
                Token::Equal,
                Token::Identifier(c),
            ],
            0,
            0,
        ) == Ok::<(Expr, int), CompileError>((
            Expr::Assignment(
                Box::new(Expr::Variable(a)),
                Box::new(
                    Expr::Assignment(Box::new(Expr::Variable(b)), Box::new(Expr::Variable(c))),
                ),
            ),
            5,
        )),
{
    let toks = seq![
        Token::Identifier(a),
        Token::Equal,
        Token::Identifier(b),
        Token::Equal,
        Token::Identifier(c),
    ];
    let va = Expr::Variable(a);
    let vb = Expr::Variable(b);
    let vc = Expr::Variable(c);
    let bc = Expr::Assignment(Box::new(vb), Box::new(vc));
    let abc = Expr::Assignment(Box::new(va), Box::new(bc));
    assert(factor_at(toks, 0) == Ok::<(Expr, int), CompileError>((va, 1)));
    assert(factor_at(toks, 2) == Ok::<(Expr, int), CompileError>((vb, 3)));
    assert(factor_at(toks, 4) == Ok::<(Expr, int), CompileError>((vc, 5)));
    assert(climb(toks, 5, 1, vc) == Ok::<(Expr, int), CompileError>((vc, 5)));
    assert(expr_at(toks, 4, 1) == Ok::<(Expr, int), CompileError>((vc, 5)));
    assert(climb(toks, 5, 1, bc) == Ok::<(Expr, int), CompileError>((bc, 5)));
    assert(climb(toks, 3, 1, vb) == Ok::<(Expr, int), CompileError>((bc, 5)));
    assert(expr_at(toks, 2, 1) == Ok::<(Expr, int), CompileError>((bc, 5)));
    assert(climb(toks, 5, 0, abc) == Ok::<(Expr, int), CompileError>((abc, 5)));
    assert(climb(toks, 1, 0, va) == Ok::<(Expr, int), CompileError>((abc, 5)));
}

// ---------------------------------------------------------------------------
// The executable parser

/// Whether an executable parse result `r`, with the parser left at `pos`,
/// is the specified result `s`.
pub open spec fn parsed_as<T>(r: Result<T, CompileError>, s: Parsed<T>, pos: usize) -> bool {
    match (r, s) {
        (Ok(v), Ok((w, p))) => v == w && pos == p,
        (Err(e), Err(f)) => e == f,
        _ => false,
    }
}

/// The tokens that `expect` looks for.
pub open spec fn plain_token(t: Token) -> bool {
    match t {
        Token::Int | Token::Void | Token::OpenParen | Token::CloseParen | Token::OpenBrace
        | Token::CloseBrace | Token::Semicolon | Token::EOF => true,
        _ => false,
    }
}

/// The tokens and the position of the next one to read.
struct Parser {
    tokens: Vec<Token>,
    current: usize,
}

/// Parses a program: one function `int name(void) { ... }`, then `EOF`.
pub fn parse(tokens: Vec<Token>) -> (r: Result<Program, CompileError>)
    ensures
        match (r, program_of(tokens@)) {
            (Ok(p), Ok(f)) => p.function.name == f.name && p.function.body@ == f.body,
            (Err(e), Err(f)) => e == f,
            _ => false,
        },
{
    let mut parser = Parser::new(tokens);
    parser.parse_program()
}

impl Parser {
    fn new(tokens: Vec<Token>) -> (r: Self)
        ensures
            r.tokens == tokens,
            r.current == 0,
    {
        Parser { tokens, current: 0 }
    }

    /// The next token, if any.
    fn peek(&self) -> (r: Option<&Token>)
        ensures
            r == (if self.current < self.tokens@.len() {
                Some(&self.tokens@[self.current as int])
            } else {
                None
            }),
    {
        if self.current < self.tokens.len() {
            Some(&self.tokens[self.current])
        } else {
            None
        }
    }

    /// Moves past the next token.
    fn advance(&mut self)
        requires
            old(self).current < old(self).tokens@.len(),
        ensures
            final(self).current == old(self).current + 1,
            final(self).tokens == old(self).tokens,
    {
        let n = self.tokens.len();
        assert(self.current < n);
        self.current = self.current + 1;
    }

    /// Consumes `expected`, or fails naming what is missing.
    fn expect(&mut self, expected: Token, missing: Expectation) -> (r: Result<(), CompileError>)
        requires
            plain_token(expected),
            old(self).current <= old(self).tokens@.len(),
        ensures
            final(self).tokens == old(self).tokens,
            final(self).current <= final(self).tokens@.len(),
            match expect_at(old(self).tokens@, old(self).current as int, expected, missing) {
                Ok(q) => r is Ok && final(self).current == q,
                Err(e) => r == Err::<(), CompileError>(e),
            },
    {
        let found = match self.peek() {
            Some(token) => match expected {
                Token::Int => matches!(token, Token::Int),
                Token::Void => matches!(token, Token::Void),
                Token::OpenParen => matches!(token, Token::OpenParen),
                Token::CloseParen => matches!(token, Token::CloseParen),
                Token::OpenBrace => matches!(token, Token::OpenBrace),
                Token::CloseBrace => matches!(token, Token::CloseBrace),
                Token::Semicolon => matches!(token, Token::Semicolon),
                _ => matches!(token, Token::EOF),
            },
            None => false,
        };
        if found {
            self.advance();
            Ok(())
        } else {
            Err(CompileError::Expected(missing))
        }
    }

    fn precedence(token: &Token) -> (r: Option<u8>)
        ensures
            r == precedence(*token),
    {
        match token {
            Token::Star | Token::Slash | Token::Percent => Some(50),
            Token::Plus | Token::Minus => Some(45),
            Token::LessLess | Token::GreaterGreater => Some(40),
            Token::Less | Token::LessEqual | Token::Greater | Token::GreaterEqual => Some(35),
            Token::EqualEqual | Token::ExclaimEqual => Some(30),
            Token::Ampersand => Some(25),
            Token::Caret => Some(20),
            Token::Pipe => Some(15),
            Token::AmpAmp => Some(10),
            Token::PipePipe => Some(5),
            Token::Equal => Some(1),
            _ => None,
        }
    }

    fn is_binary_op(token: &Token) -> (r: bool)
        ensures
            r == precedence(*token) is Some,
    {
        matches!(
            token,
            Token::Plus | Token::Minus | Token::Star | Token::Slash | Token::Percent
                | Token::Ampersand | Token::Pipe | Token::Caret | Token::LessLess
                | Token::GreaterGreater | Token::AmpAmp | Token::PipePipe | Token::EqualEqual
                | Token::ExclaimEqual | Token::Less | Token::LessEqual | Token::Greater
                | Token::GreaterEqual | Token::Equal
        )
    }

    /// Consumes a binary operator token other than `=`.
    fn parse_binop(&mut self) -> (r: Result<BinaryOperator, CompileError>)
        requires
            old(self).current < old(self).tokens@.len(),
        ensures
            final(self).tokens == old(self).tokens,
            final(self).current == old(self).current + 1,
            ({
                let t = old(self).tokens@[old(self).current as int];
                if precedence(t) is Some && t != Token::Equal {
                    r == Ok::<BinaryOperator, CompileError>(binary_operator(t))
                } else {
                    r == Err::<BinaryOperator, CompileError>(
                        CompileError::Expected(Expectation::BinaryOperator),
                    )
                }
            }),
    {
        let r = match &self.tokens[self.current] {
            Token::Plus => Ok(BinaryOperator::Add),
            Token::Minus => Ok(BinaryOperator::Subtract),
            Token::Star => Ok(BinaryOperator::Multiply),
            Token::Slash => Ok(BinaryOperator::Divide),
            Token::Percent => Ok(BinaryOperator::Modulo),
            Token::Ampersand => Ok(BinaryOperator::BitwiseAnd),
            Token::Pipe => Ok(BinaryOperator::BitwiseOr),
            Token::Caret => Ok(BinaryOperator::BitwiseXor),
            Token::LessLess => Ok(BinaryOperator::LeftShift),
            Token::GreaterGreater => Ok(BinaryOperator::RightShift),
            Token::AmpAmp => Ok(BinaryOperator::LogicalAnd),
            Token::PipePipe => Ok(BinaryOperator::LogicalOr),
            Token::EqualEqual => Ok(BinaryOperator::Equal),
            Token::ExclaimEqual => Ok(BinaryOperator::NotEqual),
            Token::Less => Ok(BinaryOperator::LessThan),
            Token::LessEqual => Ok(BinaryOperator::LessOrEqual),
            Token::Greater => Ok(BinaryOperator::GreaterThan),
            Token::GreaterEqual => Ok(BinaryOperator::GreaterOrEqual),
            _ => Err(CompileError::Expected(Expectation::BinaryOperator)),
        };
        self.advance();
        r
    }

    fn parse_program(&mut self) -> (r: Result<Program, CompileError>)
        requires
            old(self).current == 0,
        ensures
            match (r, program_of(old(self).tokens@)) {
                (Ok(p), Ok(f)) => p.function.name == f.name && p.function.body@ == f.body,
                (Err(e), Err(f)) => e == f,
                _ => false,
            },
    {
        let function = match self.parse_function() {
            Ok(f) => f,
            Err(e) => return Err(e),
        };
        match self.expect(Token::EOF, Expectation::EndOfFile) {
            Ok(()) => {},
            Err(e) => return Err(e),
        }
        Ok(Program { function })
    }

    fn parse_function(&mut self) -> (r: Result<Function, CompileError>)
        requires
            old(self).current == 0,
        ensures
            final(self).tokens == old(self).tokens,
            final(self).current <= final(self).tokens@.len(),
            match (r, function_at(old(self).tokens@)) {
                (Ok(f), Ok((pf, p))) => f.name == pf.name && f.body@ == pf.body
                    && final(self).current == p,
                (Err(e), Err(f)) => e == f,
                _ => false,
            },
    {
        let ghost toks = self.tokens@;
        match self.expect(Token::Int, Expectation::IntKeyword) {
            Ok(()) => {},
            Err(e) => return Err(e),
        }
        let name = match self.peek() {
            Some(Token::Identifier(id)) => id.clone(),
            _ => return Err(CompileError::Expected(Expectation::FunctionName)),
        };
        self.advance();
        match self.expect(Token::OpenParen, Expectation::OpenParen) {
            Ok(()) => {},
            Err(e) => return Err(e),
        }
        match self.expect(Token::Void, Expectation::Void) {
            Ok(()) => {},
            Err(e) => return Err(e),
        }
        match self.expect(Token::CloseParen, Expectation::CloseParen) {
            Ok(()) => {},
            Err(e) => return Err(e),
        }
        match self.expect(Token::OpenBrace, Expectation::OpenBrace) {
            Ok(()) => {},
            Err(e) => return Err(e),
        }

        let mut body: Vec<Block> = Vec::new();
        proof {
            if block_items_at(toks, 6) is Ok {
                let (bs, q) = block_items_at(toks, 6)->Ok_0;
                assert(body@ + bs =~= bs);
            }
        }
        while !matches!(self.peek(), Some(Token::CloseBrace))
            invariant
                self.tokens == old(self).tokens,
                toks == old(self).tokens@,
                token_at(toks, 0, Token::Int),
                1 < toks.len() && toks[1] is Identifier && name == toks[1]->Identifier_0,
                token_at(toks, 2, Token::OpenParen),
                token_at(toks, 3, Token::Void),
                token_at(toks, 4, Token::CloseParen),
                token_at(toks, 5, Token::OpenBrace),
                6 <= self.current <= toks.len(),
                block_items_at(toks, 6) == match block_items_at(toks, self.current as int) {
                    Ok((bs, q)) => Ok((body@ + bs, q)),
                    Err(e) => Err(e),
                },
            decreases toks.len() - self.current,
        {
            let ghost pos = self.current as int;
            let block_item = match self.parse_block_item() {
                Ok(b) => b,
                Err(e) => return Err(e),
            };
            proof {
                let rest = block_items_at(toks, self.current as int);
                if rest is Ok {
                    let (bs, q) = rest->Ok_0;
                    assert(body@ + (seq![block_item] + bs) =~= body@.push(block_item) + bs);
                }
            }
            body.push(block_item);
        }
        proof {
            assert(body@ + Seq::<Block>::empty() =~= body@);
        }
        match self.expect(Token::CloseBrace, Expectation::CloseBrace) {
            Ok(()) => {},
            Err(e) => return Err(e),
        }
        Ok(Function { name, body })
    }

    fn parse_block_item(&mut self) -> (r: Result<Block, CompileError>)
        requires
            old(self).current <= old(self).tokens@.len(),
        ensures
            final(self).tokens == old(self).tokens,
            final(self).current <= final(self).tokens@.len(),
            parsed_as(r, block_item_at(old(self).tokens@, old(self).current as int), final(self).current),
            r is Ok ==> final(self).current > old(self).current,
    {
        match self.peek() {
            Some(Token::Int) => match self.parse_declaration() {
                Ok(decl) => Ok(Block::Declare(decl)),
                Err(e) => Err(e),
            },
            _ => match self.parse_statement() {
                Ok(stmt) => Ok(Block::State(stmt)),
                Err(e) => Err(e),
            },
        }
    }

    fn parse_declaration(&mut self) -> (r: Result<Declaration, CompileError>)
        requires
            old(self).current <= old(self).tokens@.len(),
        ensures
            final(self).tokens == old(self).tokens,
            final(self).current <= final(self).tokens@.len(),
            parsed_as(r, declaration_at(old(self).tokens@, old(self).current as int), final(self).current),
            r is Ok ==> final(self).current > old(self).current,
    {
        match self.expect(Token::Int, Expectation::IntKeyword) {
            Ok(()) => {},
            Err(e) => return Err(e),
        }
        let name = match self.peek() {
            Some(Token::Identifier(id)) => id.clone(),
            _ => return Err(CompileError::Expected(Expectation::VariableName)),
        };
        self.advance();
        let init = if matches!(self.peek(), Some(Token::Equal)) {
            self.advance();
            match self.parse_exp(0) {
                Ok(e) => Some(e),
                Err(e) => return Err(e),
            }
        } else {
            None
        };
        match self.expect(Token::Semicolon, Expectation::Semicolon) {
            Ok(()) => {},
            Err(e) => return Err(e),
        }
        Ok(Declaration { name, init })
    }

    fn parse_statement(&mut self) -> (r: Result<Statement, CompileError>)
        requires
            old(self).current <= old(self).tokens@.len(),
        ensures
            final(self).tokens == old(self).tokens,
            final(self).current <= final(self).tokens@.len(),
            parsed_as(r, statement_at(old(self).tokens@, old(self).current as int), final(self).current),
            r is Ok ==> final(self).current > old(self).current,
    {
        match self.peek() {
            Some(Token::Return) => {
                self.advance();
                let exp = match self.parse_exp(0) {
                    Ok(e) => e,
                    Err(e) => return Err(e),
                };
                match self.expect(Token::Semicolon, Expectation::Semicolon) {
                    Ok(()) => {},
                    Err(e) => return Err(e),
                }
                Ok(Statement::Return(exp))
            },
            Some(Token::Semicolon) => {
                self.advance();
                Ok(Statement::Null)
            },
            _ => {
                let exp = match self.parse_exp(0) {
                    Ok(e) => e,
                    Err(e) => return Err(e),
                };
                match self.expect(Token::Semicolon, Expectation::Semicolon) {
                    Ok(()) => {},
                    Err(e) => return Err(e),
                }
                Ok(Statement::Expression(exp))
            },
        }
    }

    /// Precedence climbing: a factor, then binary operators binding at
    /// least as tightly as `min_prec`.
    fn parse_exp(&mut self, min_prec: u8) -> (r: Result<Expr, CompileError>)
        requires
            old(self).current <= old(self).tokens@.len(),
        ensures
            final(self).tokens == old(self).tokens,
            final(self).current <= final(self).tokens@.len(),
            parsed_as(r, expr_at(old(self).tokens@, old(self).current as int, min_prec), final(self).current),
            r is Ok ==> final(self).current > old(self).current,
        decreases old(self).tokens@.len() - old(self).current, 2int,
    {
        let ghost toks = self.tokens@;
        let ghost start = self.current as int;
        let mut left = match self.parse_factor() {
            Ok(e) => e,
            Err(e) => return Err(e),
        };
        loop
            invariant
                self.tokens == old(self).tokens,
                toks == old(self).tokens@,
                start == old(self).current,
                start < self.current <= toks.len(),
                expr_at(toks, start, min_prec) == climb(toks, self.current as int, min_prec, left),
            decreases toks.len() - self.current,
        {
            let token = match self.peek() {
                Some(t) => t,
                None => return Ok(left),
            };
            if !Self::is_binary_op(token) {
                return Ok(left);
            }
            let token_prec = Self::precedence(token).unwrap();
            if token_prec < min_prec {
                return Ok(left);
            }
            if matches!(token, Token::Equal) {
                // Right-associative: the right side binds at the same level.
                self.advance();
                let right = match self.parse_exp(token_prec) {
                    Ok(e) => e,
                    Err(e) => return Err(e),
                };
                left = Expr::Assignment(Box::new(left), Box::new(right));
            } else {
                let operator = match self.parse_binop() {
                    Ok(op) => op,
                    Err(e) => return Err(e),
                };
                let right = match self.parse_exp(token_prec + 1) {
                    Ok(e) => e,
                    Err(e) => return Err(e),
                };
                left = Expr::Binary(operator, Box::new(left), Box::new(right));
            }
        }
    }

    fn parse_factor(&mut self) -> (r: Result<Expr, CompileError>)
        requires
            old(self).current <= old(self).tokens@.len(),
        ensures
            final(self).tokens == old(self).tokens,
            final(self).current <= final(self).tokens@.len(),
            parsed_as(r, factor_at(old(self).tokens@, old(self).current as int), final(self).current),
            r is Ok ==> final(self).current > old(self).current,
        decreases old(self).tokens@.len() - old(self).current, 0int,
    {
        match self.peek() {
            Some(Token::Constant(value)) => {
                let value = value.clone();
                self.advance();
                match parse_i32(&value) {
                    Some(n) => Ok(Expr::Constant(n)),
                    None => Err(CompileError::InvalidInteger(value)),
                }
            },
            Some(Token::Identifier(name)) => {
                let name = name.clone();
                self.advance();
                Ok(Expr::Variable(name))
            },
            Some(Token::Tilde) => {
                self.advance();
                match self.parse_factor() {
                    Ok(inner) => Ok(Expr::Unary(UnaryOperator::Complement, Box::new(inner))),
                    Err(e) => Err(e),
                }
            },
            Some(Token::Minus) => {
                self.advance();
                match self.parse_factor() {
                    Ok(inner) => Ok(Expr::Unary(UnaryOperator::Negate, Box::new(inner))),
                    Err(e) => Err(e),
                }
            },
            Some(Token::Exclaim) => {
                self.advance();
                match self.parse_factor() {
                    Ok(inner) => Ok(Expr::Unary(UnaryOperator::LogicalNot, Box::new(inner))),
                    Err(e) => Err(e),
                }
            },
            Some(Token::OpenParen) => {
                self.advance();
                let inner = match self.parse_exp(0) {
                    Ok(e) => e,
                    Err(e) => return Err(e),
                };
                match self.peek() {
                    Some(Token::CloseParen) => {},
                    _ => return Err(CompileError::Expected(Expectation::CloseParen)),
                }
                self.advance();
                Ok(inner)
            },
            _ => Err(CompileError::Expected(Expectation::Factor)),
        }
    }
}

} // verus!
