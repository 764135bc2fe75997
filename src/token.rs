//! The tokens that the lexer produces and the parser consumes.
use vstd::prelude::*;

verus! {

#[derive(Debug, Clone, PartialEq, Eq)]
pub enum Token {
    Int,
    Void,
    Return,

    Identifier(String),
    Constant(String),

    OpenParen,
    CloseParen,
    OpenBrace,
    CloseBrace,
    Semicolon,

    Tilde,
    Exclaim,
    PlusPlus,
    MinusMinus,

    Plus,
    Minus,
    Star,
    Slash,
    Percent,
    Equal,

    Pipe,
    Caret,
    Ampersand,
    LessLess,
    GreaterGreater,

    AmpAmp,
    PipePipe,

    Less,
    LessEqual,

    Greater,
    GreaterEqual,

    EqualEqual,
    ExclaimEqual,

    PlusEqual,
    MinusEqual,
    StarEqual,
    SlashEqual,
    PercentEqual,

    AmpEqual,
    PipeEqual,
    CaretEqual,
    LessLessEqual,
    GreaterGreaterEqual,

    EOF,
}

/// A token as the lexer's specification describes it: either a token that
/// carries no text, or an identifier or constant with its characters.
pub ghost enum Lexeme {
    Plain(Token),
    Identifier(Seq<char>),
    Constant(Seq<char>),
}

/// Whether `t` is the token that the lexeme `l` describes.
pub open spec fn token_is(t: Token, l: Lexeme) -> bool {
    match l {
        Lexeme::Plain(k) => t == k && !(k is Identifier) && !(k is Constant),
        Lexeme::Identifier(s) => t matches Token::Identifier(n) && n@ == s,
        Lexeme::Constant(s) => t matches Token::Constant(n) && n@ == s,
    }
}

/// Whether the token sequence `ts` is the lexeme sequence `ls`, one for one.
pub open spec fn tokens_are(ts: Seq<Token>, ls: Seq<Lexeme>) -> bool {
    &&& ts.len() == ls.len()
    &&& forall|i: int| 0 <= i < ts.len() ==> token_is(#[trigger] ts[i], ls[i])
}

} // verus!
