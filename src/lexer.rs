//! The lexer: source text to tokens. Whitespace, keywords, identifiers and
//! integer constants are recognised by regular expressions (Unicode-aware,
//! as the `regex` crate defines `\s`, `\w` and `\b`); operators and
//! punctuation by their characters.
use crate::error::CompileError;
use crate::token::{token_is, tokens_are, Lexeme, Token};
use vstd::prelude::*;

verus! {

/// The text of the first match of the regular expression `pattern` in
/// `haystack`, as `regex::Regex::new(pattern)` and `Regex::find` give it;
/// `None` when there is no match or the pattern is not a valid regex.
pub uninterp spec fn regex_find(pattern: Seq<char>, haystack: Seq<char>) -> Option<Seq<char>>;

/// Relies on `regex::Regex::new`, `Regex::find` and `Match::as_str`: the
/// text of the first match of `pattern` in `haystack`, or `None` when there
/// is none or the pattern does not compile.
#[verifier::external_body]
fn find_match(pattern: &str, haystack: &str) -> (r: Option<String>)
    ensures
        option_text(r) == regex_find(pattern@, haystack@),
{
    match regex::Regex::new(pattern) {
        Ok(re) => match re.find(haystack) {
            Some(m) => Some(m.as_str().to_string()),
            None => None,
        },
        Err(_) => None,
    }
}

/// A run of whitespace.
pub const WHITESPACE: &'static str = "^\\s+";

/// The keyword `int`, not followed by a word character.
pub const INT_KEYWORD: &'static str = "^int\\b";

/// The keyword `void`, not followed by a word character.
pub const VOID_KEYWORD: &'static str = "^void\\b";

/// The keyword `return`, not followed by a word character.
pub const RETURN_KEYWORD: &'static str = "^return\\b";

/// A letter or underscore, then word characters.
pub const IDENTIFIER: &'static str = "^[a-zA-Z_]\\w*\\b";

/// Decimal digits, not followed by a word character.
pub const NUMBER: &'static str = "^[0-9]+\\b";

/// The characters of an optional string.
pub open spec fn option_text(o: Option<String>) -> Option<Seq<char>> {
    match o {
        Some(t) => Some(t@),
        None => None,
    }
}

/// What each pattern matched at the start of a text.
pub struct LeadingMatches {
    pub whitespace: Option<String>,
    pub int_keyword: Option<String>,
    pub void_keyword: Option<String>,
    pub return_keyword: Option<String>,
    pub identifier: Option<String>,
    pub number: Option<String>,
}

/// The matches at the start of a text, as characters.
pub ghost struct MatchesModel {
    pub whitespace: Option<Seq<char>>,
    pub int_keyword: Option<Seq<char>>,
    pub void_keyword: Option<Seq<char>>,
    pub return_keyword: Option<Seq<char>>,
    pub identifier: Option<Seq<char>>,
    pub number: Option<Seq<char>>,
}

impl View for LeadingMatches {
    type V = MatchesModel;

    open spec fn view(&self) -> MatchesModel {
        MatchesModel {
            whitespace: option_text(self.whitespace),
            int_keyword: option_text(self.int_keyword),
            void_keyword: option_text(self.void_keyword),
            return_keyword: option_text(self.return_keyword),
            identifier: option_text(self.identifier),
            number: option_text(self.number),
        }
    }
}

/// What the patterns match at the start of `s`.
pub open spec fn leading_matches(s: Seq<char>) -> MatchesModel {
    MatchesModel {
        whitespace: regex_find(WHITESPACE@, s),
        int_keyword: regex_find(INT_KEYWORD@, s),
        void_keyword: regex_find(VOID_KEYWORD@, s),
        return_keyword: regex_find(RETURN_KEYWORD@, s),
        identifier: regex_find(IDENTIFIER@, s),
        number: regex_find(NUMBER@, s),
    }
}

/// How many characters of a text of length `len` a match takes: its length
/// when it is nonempty and no longer than the text, else 0 (no match).
pub open spec fn taken(m: Option<Seq<char>>, len: int) -> int {
    match m {
        Some(t) => if 0 < t.len() <= len {
            t.len() as int
        } else {
            0
        },
        None => 0,
    }
}

/// The text of a match.
pub open spec fn text_of(m: Option<Seq<char>>) -> Seq<char> {
    match m {
        Some(t) => t,
        None => Seq::empty(),
    }
}

/// The two-character operator that `a` and `b` spell, if any.
pub open spec fn two_char_token(a: char, b: char) -> Option<Token> {
    if a == '<' && b == '<' {
        Some(Token::LessLess)
    } else if a == '>' && b == '>' {
        Some(Token::GreaterGreater)
    } else if a == '&' && b == '&' {
        Some(Token::AmpAmp)
    } else if a == '|' && b == '|' {
        Some(Token::PipePipe)
    } else if a == '=' && b == '=' {
        Some(Token::EqualEqual)
    } else if a == '!' && b == '=' {
        Some(Token::ExclaimEqual)
    } else if a == '<' && b == '=' {
        Some(Token::LessEqual)
    } else if a == '>' && b == '=' {
        Some(Token::GreaterEqual)
    } else if a == '+' && b == '+' {
        Some(Token::PlusPlus)
    } else if a == '-' && b == '-' {
        Some(Token::MinusMinus)
    } else {
        None
    }
}

/// The punctuation or one-character operator `c`, if any.
pub open spec fn one_char_token(c: char) -> Option<Token> {
    if c == '(' {
        Some(Token::OpenParen)
    } else if c == ')' {
        Some(Token::CloseParen)
    } else if c == '{' {
        Some(Token::OpenBrace)
    } else if c == '}' {
        Some(Token::CloseBrace)
    } else if c == ';' {
        Some(Token::Semicolon)
    } else if c == '~' {
        Some(Token::Tilde)
    } else if c == '+' {
        Some(Token::Plus)
    } else if c == '-' {
        Some(Token::Minus)
    } else if c == '*' {
        Some(Token::Star)
    } else if c == '/' {
        Some(Token::Slash)
    } else if c == '%' {
        Some(Token::Percent)
    } else if c == '&' {
        Some(Token::Ampersand)
    } else if c == '|' {
        Some(Token::Pipe)
    } else if c == '^' {
        Some(Token::Caret)
    } else if c == '!' {
        Some(Token::Exclaim)
    } else if c == '<' {
        Some(Token::Less)
    } else if c == '>' {
        Some(Token::Greater)
    } else if c == '=' {
        Some(Token::Equal)
    } else {
        None
    }
}

/// What stands at the start of the nonempty text `s`, given what the
/// patterns match there: the lexeme (`None` for whitespace) and how many
/// characters it takes. The first rule that applies wins: whitespace,
/// keywords, identifiers, constants, two-character operators, one-character
/// tokens.
pub open spec fn scan_with(s: Seq<char>, m: MatchesModel) -> Result<(Option<Lexeme>, int), CompileError> {
    if taken(m.whitespace, s.len() as int) > 0 {
        Ok((None, taken(m.whitespace, s.len() as int)))
    } else if taken(m.int_keyword, s.len() as int) > 0 {
        Ok((Some(Lexeme::Plain(Token::Int)), taken(m.int_keyword, s.len() as int)))
    } else if taken(m.void_keyword, s.len() as int) > 0 {
        Ok((Some(Lexeme::Plain(Token::Void)), taken(m.void_keyword, s.len() as int)))
    } else if taken(m.return_keyword, s.len() as int) > 0 {
        Ok((Some(Lexeme::Plain(Token::Return)), taken(m.return_keyword, s.len() as int)))
    } else if taken(m.identifier, s.len() as int) > 0 {
        Ok((Some(Lexeme::Identifier(text_of(m.identifier))), taken(m.identifier, s.len() as int)))
    } else if taken(m.number, s.len() as int) > 0 {
        Ok((Some(Lexeme::Constant(text_of(m.number))), taken(m.number, s.len() as int)))
    } else if s.len() >= 2 && two_char_token(s[0], s[1]) is Some {
        Ok((Some(Lexeme::Plain(two_char_token(s[0], s[1])->0)), 2))
    } else if one_char_token(s[0]) is Some {
        Ok((Some(Lexeme::Plain(one_char_token(s[0])->0)), 1))
    } else {
        Err(CompileError::UnexpectedCharacter(s[0]))
    }
}

/// What stands at the start of the nonempty text `s`.
pub open spec fn scan(s: Seq<char>) -> Result<(Option<Lexeme>, int), CompileError> {
    scan_with(s, leading_matches(s))
}

/// The lexemes of `s`, ending with `EOF`, or the first lexical error.
pub open spec fn lex_chars(s: Seq<char>) -> Result<Seq<Lexeme>, CompileError>
    decreases s.len(),
{
    if s.len() == 0 {
        Ok(seq![Lexeme::Plain(Token::EOF)])
    } else {
        match scan(s) {
            Err(e) => Err(e),
            Ok((lexeme, n)) => {
                if 0 < n <= s.len() {
                    match lex_chars(s.skip(n)) {
                        Err(e) => Err(e),
                        Ok(rest) => match lexeme {
                            Some(l) => Ok(seq![l] + rest),
                            None => Ok(rest),
                        },
                    }
                } else {
                    Err(CompileError::UnexpectedCharacter(s[0]))
                }
            },
        }
    }
}

/// `done` followed by the lexemes in `r`.
pub open spec fn after(done: Seq<Lexeme>, r: Result<Seq<Lexeme>, CompileError>) -> Result<
    Seq<Lexeme>,
    CompileError,
> {
    match r {
        Ok(rest) => Ok(done + rest),
        Err(e) => Err(e),
    }
}

/// Runs every pattern at the start of `rest`.
fn find_leading(rest: &str) -> (r: LeadingMatches)
    ensures
        r@ == leading_matches(rest@),
{
    LeadingMatches {
        whitespace: find_match(WHITESPACE, rest),
        int_keyword: find_match(INT_KEYWORD, rest),
        void_keyword: find_match(VOID_KEYWORD, rest),
        return_keyword: find_match(RETURN_KEYWORD, rest),
        identifier: find_match(IDENTIFIER, rest),
        number: find_match(NUMBER, rest),
    }
}

/// How many characters a match takes, as `taken` defines it.
fn taken_len(m: &Option<String>, rest_len: usize) -> (r: usize)
    ensures
        r == taken(option_text(*m), rest_len as int),
{
    match m {
        Some(t) => {
            let n = t.as_str().unicode_len();
            if 0 < n && n <= rest_len {
                n
            } else {
                0
            }
        },
        None => 0,
    }
}

fn two_char(a: char, b: char) -> (r: Option<Token>)
    ensures
        r == two_char_token(a, b),
{
    if a == '<' && b == '<' {
        Some(Token::LessLess)
    } else if a == '>' && b == '>' {
        Some(Token::GreaterGreater)
    } else if a == '&' && b == '&' {
        Some(Token::AmpAmp)
    } else if a == '|' && b == '|' {
        Some(Token::PipePipe)
    } else if a == '=' && b == '=' {
        Some(Token::EqualEqual)
    } else if a == '!' && b == '=' {
        Some(Token::ExclaimEqual)
    } else if a == '<' && b == '=' {
        Some(Token::LessEqual)
    } else if a == '>' && b == '=' {
        Some(Token::GreaterEqual)
    } else if a == '+' && b == '+' {
        Some(Token::PlusPlus)
    } else if a == '-' && b == '-' {
        Some(Token::MinusMinus)
    } else {
        None
    }
}

fn one_char(c: char) -> (r: Option<Token>)
    ensures
        r == one_char_token(c),
{
    match c {
        '(' => Some(Token::OpenParen),
        ')' => Some(Token::CloseParen),
        '{' => Some(Token::OpenBrace),
        '}' => Some(Token::CloseBrace),
        ';' => Some(Token::Semicolon),
        '~' => Some(Token::Tilde),
        '+' => Some(Token::Plus),
        '-' => Some(Token::Minus),
        '*' => Some(Token::Star),
        '/' => Some(Token::Slash),
        '%' => Some(Token::Percent),
        '&' => Some(Token::Ampersand),
        '|' => Some(Token::Pipe),
        '^' => Some(Token::Caret),
        '!' => Some(Token::Exclaim),
        '<' => Some(Token::Less),
        '>' => Some(Token::Greater),
        '=' => Some(Token::Equal),
        _ => None,
    }
}

/// Whether an executable scan result is the specified one.
pub open spec fn scanned(
    r: Result<(Option<Token>, usize), CompileError>,
    s: Result<(Option<Lexeme>, int), CompileError>,
) -> bool {
    match (r, s) {
        (Ok((t, n)), Ok((l, m))) => n == m && match (t, l) {
            (Some(t), Some(l)) => token_is(t, l),
            (None, None) => true,
            _ => false,
        },
        (Err(e), Err(f)) => e == f,
        _ => false,
    }
}

/// Decides what stands at the start of the nonempty text `rest`, given
/// what each pattern matched there.
pub fn select_token(rest: &str, m: &LeadingMatches) -> (r: Result<(Option<Token>, usize), CompileError>)
    requires
        rest@.len() > 0,
    ensures
        scanned(r, scan_with(rest@, m@)),
        r matches Ok((_, n)) ==> 0 < n <= rest@.len(),
{
    let len = rest.unicode_len();
    let n = taken_len(&m.whitespace, len);
    if n > 0 {
        return Ok((None, n));
    }
    let n = taken_len(&m.int_keyword, len);
    if n > 0 {
        return Ok((Some(Token::Int), n));
    }
    let n = taken_len(&m.void_keyword, len);
    if n > 0 {
        return Ok((Some(Token::Void), n));
    }
    let n = taken_len(&m.return_keyword, len);
    if n > 0 {
        return Ok((Some(Token::Return), n));
    }
    let n = taken_len(&m.identifier, len);
    if n > 0 {
        if let Some(t) = &m.identifier {
            return Ok((Some(Token::Identifier(t.clone())), n));
        }
    }
    let n = taken_len(&m.number, len);
    if n > 0 {
        if let Some(t) = &m.number {
            return Ok((Some(Token::Constant(t.clone())), n));
        }
    }
    let first = rest.get_char(0);
    if len >= 2 {
        let second = rest.get_char(1);
        if let Some(t) = two_char(first, second) {
            return Ok((Some(t), 2));
        }
    }
    match one_char(first) {
        Some(t) => Ok((Some(t), 1)),
        None => Err(CompileError::UnexpectedCharacter(first)),
    }
}

/// Recognises what stands at the start of `rest`.
fn scan_one(rest: &str) -> (r: Result<(Option<Token>, usize), CompileError>)
    requires
        rest@.len() > 0,
    ensures
        scanned(r, scan(rest@)),
        r matches Ok((_, n)) ==> 0 < n <= rest@.len(),
{
    let matches = find_leading(rest);
    select_token(rest, &matches)
}

/// Splits source text into tokens, ending with `EOF`; fails on the first
/// character that starts no token.
pub fn lex(source: &str) -> (r: Result<Vec<Token>, CompileError>)
    ensures
        match (r, lex_chars(source@)) {
            (Ok(ts), Ok(ls)) => tokens_are(ts@, ls),
            (Err(e), Err(f)) => e == f,
            _ => false,
        },
{
    let len = source.unicode_len();
    let mut pos: usize = 0;
    let mut tokens: Vec<Token> = Vec::new();
    let ghost mut done: Seq<Lexeme> = Seq::empty();
    proof {
        assert(source@.skip(0) =~= source@);
        if lex_chars(source@) is Ok {
            assert(done + lex_chars(source@)->Ok_0 =~= lex_chars(source@)->Ok_0);
        }
    }
    while pos < len
        invariant
            0 <= pos <= len,
            len == source@.len(),
            tokens_are(tokens@, done),
            lex_chars(source@) == after(done, lex_chars(source@.skip(pos as int))),
        decreases len - pos,
    {
        let rest = source.substring_char(pos, len);
        assert(rest@ =~= source@.skip(pos as int));
        match scan_one(rest) {
            Err(e) => {
                return Err(e);
            },
            Ok((tok, n)) => {
                proof {
                    assert(rest@.skip(n as int) =~= source@.skip(pos + n));
                }
                match tok {
                    Some(t) => {
                        proof {
                            let l = scan(rest@)->Ok_0.0->Some_0;
                            let tail = lex_chars(rest@.skip(n as int));
                            if tail is Ok {
                                assert(done + (seq![l] + tail->Ok_0) =~= done.push(l) + tail->Ok_0);
                            }
                            done = done.push(l);
                        }
                        tokens.push(t);
                    },
                    None => {},
                }
                pos = pos + n;
            },
        }
    }
    proof {
        assert(source@.skip(pos as int) =~= Seq::<char>::empty());
    }
    tokens.push(Token::EOF);
    proof {
        done = done.push(Lexeme::Plain(Token::EOF));
    }
    Ok(tokens)
}

} // verus!
