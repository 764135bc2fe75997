//! The errors that stop a compilation.
use vstd::prelude::*;

verus! {

/// What the parser was looking for when it met something else.
#[derive(Debug, Clone, Copy, PartialEq, Eq, Structural)]
pub enum Expectation {
    IntKeyword,
    FunctionName,
    VariableName,
    OpenParen,
    CloseParen,
    OpenBrace,
    CloseBrace,
    Void,
    Semicolon,
    Factor,
    BinaryOperator,
    EndOfFile,
}

/// The first failure of a compilation; later passes are not run.
#[derive(Debug, Clone, PartialEq, Eq)]
pub enum CompileError {
    /// The lexer found a character that starts no token.
    UnexpectedCharacter(char),
    /// The parser found a token other than the one the grammar needs.
    Expected(Expectation),
    /// An integer constant does not fit in 32 signed bits.
    InvalidInteger(String),
    /// A variable was declared twice in the function.
    DuplicateDeclaration(String),
    /// A variable was used without a declaration.
    UndeclaredVariable(String),
    /// The left side of an assignment is not a variable.
    InvalidLvalue,
}

impl Expectation {
    /// The message the parser reports for this expectation.
    pub fn describe(&self) -> &'static str {
        match self {
            Expectation::IntKeyword => "Expected 'int' keyword",
            Expectation::FunctionName => "Expected function name",
            Expectation::VariableName => "Expected variable name",
            Expectation::OpenParen => "Expected '('",
            Expectation::CloseParen => "Expected ')'",
            Expectation::OpenBrace => "Expected '{'",
            Expectation::CloseBrace => "Expected '}'",
            Expectation::Void => "Expected 'void'",
            Expectation::Semicolon => "Expected ';'",
            Expectation::Factor => "Expected number, unary operator, or '('",
            Expectation::BinaryOperator => "Expected binary operator",
            Expectation::EndOfFile => "Expected end of file",
        }
    }
}

} // verus!
