use crucible::ast::{Block, Expr, Statement};
use crucible::error::{CompileError, Expectation};
use crucible::lexer::{lex, select_token, LeadingMatches};
use crucible::parser::parse;
use crucible::resolve::resolve;
use crucible::token::Token;

fn ident(s: &str) -> Token {
    Token::Identifier(s.to_string())
}

fn constant(s: &str) -> Token {
    Token::Constant(s.to_string())
}

/// The expression of the single `return` of a one-statement program.
fn returned(source: &str) -> Expr {
    let program = parse(lex(source).unwrap()).unwrap();
    match program.function.body.into_iter().next() {
        Some(Block::State(Statement::Return(e))) => e,
        other => panic!("unexpected body {:?}", other),
    }
}

#[test]
fn lexes_a_program() {
    let tokens = lex("int main(void) {\n  return 42;\n}").unwrap();
    assert_eq!(
        tokens,
        vec![
            Token::Int,
            ident("main"),
            Token::OpenParen,
            Token::Void,
            Token::CloseParen,
            Token::OpenBrace,
            Token::Return,
            constant("42"),
            Token::Semicolon,
            Token::CloseBrace,
            Token::EOF,
        ]
    );
}

#[test]
fn lexing_is_deterministic() {
    let source = "int main(void){int a = 1 << 2; return a && !a || ~a;}";
    assert_eq!(lex(source).unwrap(), lex(source).unwrap());
    assert_eq!(lex("int x = $;"), lex("int x = $;"));
}

#[test]
fn empty_source_is_just_eof() {
    assert_eq!(lex("").unwrap(), vec![Token::EOF]);
    assert_eq!(lex(" \t\n ").unwrap(), vec![Token::EOF]);
}

#[test]
fn identifier_text_is_the_match() {
    assert_eq!(lex("abc def").unwrap(), vec![ident("abc"), ident("def"), Token::EOF]);
    assert_eq!(lex("_x1+y").unwrap(), vec![ident("_x1"), Token::Plus, ident("y"), Token::EOF]);
}

#[test]
fn keywords_need_a_word_boundary() {
    assert_eq!(
        lex("integer int returns return voided void").unwrap(),
        vec![
            ident("integer"),
            Token::Int,
            ident("returns"),
            Token::Return,
            ident("voided"),
            Token::Void,
            Token::EOF
        ]
    );
}

#[test]
fn two_character_operators_win() {
    assert_eq!(
        lex("<< >> && || == != <= >= ++ --").unwrap(),
        vec![
            Token::LessLess,
            Token::GreaterGreater,
            Token::AmpAmp,
            Token::PipePipe,
            Token::EqualEqual,
            Token::ExclaimEqual,
            Token::LessEqual,
            Token::GreaterEqual,
            Token::PlusPlus,
            Token::MinusMinus,
            Token::EOF
        ]
    );
    assert_eq!(
        lex("<<=").unwrap(),
        vec![Token::LessLess, Token::Equal, Token::EOF]
    );
}

#[test]
fn single_character_tokens() {
    assert_eq!(
        lex("(){};~!+-*/%&|^<> =").unwrap(),
        vec![
            Token::OpenParen,
            Token::CloseParen,
            Token::OpenBrace,
            Token::CloseBrace,
            Token::Semicolon,
            Token::Tilde,
            Token::Exclaim,
            Token::Plus,
            Token::Minus,
            Token::Star,
            Token::Slash,
            Token::Percent,
            Token::Ampersand,
            Token::Pipe,
            Token::Caret,
            Token::Less,
            Token::Greater,
            Token::Equal,
            Token::EOF
        ]
    );
}

#[test]
fn unexpected_character_is_reported() {
    assert_eq!(lex("int @"), Err(CompileError::UnexpectedCharacter('@')));
}

#[test]
fn constant_followed_by_letter_is_rejected() {
    assert_eq!(lex("123abc"), Err(CompileError::UnexpectedCharacter('1')));
}

#[test]
fn addition_groups_left() {
    assert_eq!(
        format!("{:?}", returned("int main(void){return a - b - c;}")),
        "Binary(Subtract, Binary(Subtract, Variable(\"a\"), Variable(\"b\")), Variable(\"c\"))"
    );
    assert_eq!(
        format!("{:?}", returned("int main(void){return a / b * c;}")),
        "Binary(Multiply, Binary(Divide, Variable(\"a\"), Variable(\"b\")), Variable(\"c\"))"
    );
}

#[test]
fn assignment_groups_right() {
    assert_eq!(
        format!("{:?}", returned("int main(void){return a = b = c;}")),
        "Assignment(Variable(\"a\"), Assignment(Variable(\"b\"), Variable(\"c\")))"
    );
}

#[test]
fn multiplication_binds_tighter_than_addition() {
    assert_eq!(
        format!("{:?}", returned("int main(void){return 1 + 2 * 3;}")),
        "Binary(Add, Constant(1), Binary(Multiply, Constant(2), Constant(3)))"
    );
}

#[test]
fn addition_binds_tighter_than_shift() {
    assert_eq!(
        format!("{:?}", returned("int main(void){return 1 << 2 + 3;}")),
        "Binary(LeftShift, Constant(1), Binary(Add, Constant(2), Constant(3)))"
    );
}

#[test]
fn unary_and_parentheses() {
    assert_eq!(
        format!("{:?}", returned("int main(void){return -(~1) + !2;}")),
        "Binary(Add, Unary(Negate, Unary(Complement, Constant(1))), Unary(LogicalNot, Constant(2)))"
    );
    assert_eq!(
        format!("{:?}", returned("int main(void){return a || b && c;}")),
        "Binary(LogicalOr, Variable(\"a\"), Binary(LogicalAnd, Variable(\"b\"), Variable(\"c\")))"
    );
}

#[test]
fn largest_constant_parses() {
    assert_eq!(
        format!("{:?}", returned("int main(void){return 2147483647;}")),
        "Constant(2147483647)"
    );
}

#[test]
fn constant_out_of_range_is_rejected() {
    let r = parse(lex("int main(void){return 2147483648;}").unwrap());
    assert!(matches!(r, Err(CompileError::InvalidInteger(t)) if t == "2147483648"));
}

#[test]
fn missing_semicolon_is_reported() {
    let r = parse(lex("int main(void){return 2}").unwrap());
    assert!(matches!(r, Err(CompileError::Expected(Expectation::Semicolon))));
    assert_eq!(Expectation::Semicolon.describe(), "Expected ';'");
}

#[test]
fn parse_errors_name_what_is_missing() {
    let cases = [
        ("main(void){return 0;}", Expectation::IntKeyword),
        ("int (void){return 0;}", Expectation::FunctionName),
        ("int main void){return 0;}", Expectation::OpenParen),
        ("int main(){return 0;}", Expectation::Void),
        ("int main(void{return 0;}", Expectation::CloseParen),
        ("int main(void) return 0;}", Expectation::OpenBrace),
        ("int main(void){return (1;}", Expectation::CloseParen),
        ("int main(void){return 0;", Expectation::Factor),
        ("int main(void){return 0;} x", Expectation::EndOfFile),
        ("int main(void){int 3;}", Expectation::VariableName),
        ("int main(void){return ++a;}", Expectation::Factor),
    ];
    for (source, expected) in cases {
        let r = parse(lex(source).unwrap());
        assert!(
            matches!(&r, Err(CompileError::Expected(e)) if *e == expected),
            "{}: {:?}",
            source,
            r
        );
    }
}

#[test]
fn resolver_renames_in_declaration_order() {
    let program = parse(lex("int main(void){int a = 1; int b = a; b = a + b; return b;}").unwrap()).unwrap();
    let resolved = resolve(program).unwrap();
    assert_eq!(
        format!("{:?}", resolved.function.body),
        "[Declare(Declaration { name: \"a.0\", init: Some(Constant(1)) }), \
         Declare(Declaration { name: \"b.1\", init: Some(Variable(\"a.0\")) }), \
         State(Expression(Assignment(Variable(\"b.1\"), Binary(Add, Variable(\"a.0\"), Variable(\"b.1\"))))), \
         State(Return(Variable(\"b.1\")))]"
    );
}

#[test]
fn initializer_sees_its_own_declaration() {
    let program = parse(lex("int main(void){int a = a; return a;}").unwrap()).unwrap();
    let resolved = resolve(program).unwrap();
    assert_eq!(
        format!("{:?}", resolved.function.body[0]),
        "Declare(Declaration { name: \"a.0\", init: Some(Variable(\"a.0\")) })"
    );
}

#[test]
fn use_before_declaration_is_rejected() {
    let program = parse(lex("int main(void){a = 1; int a; return a;}").unwrap()).unwrap();
    assert!(matches!(resolve(program), Err(CompileError::UndeclaredVariable(n)) if n == "a"));
}

fn no_matches() -> LeadingMatches {
    LeadingMatches {
        whitespace: None,
        int_keyword: None,
        void_keyword: None,
        return_keyword: None,
        identifier: None,
        number: None,
    }
}

#[test]
fn keyword_match_wins_over_identifier() {
    let mut m = no_matches();
    m.int_keyword = Some("int".to_string());
    m.identifier = Some("int".to_string());
    assert_eq!(select_token("int x", &m), Ok((Some(Token::Int), 3)));
}

#[test]
fn identifier_takes_the_matched_text() {
    let mut m = no_matches();
    m.identifier = Some("abc".to_string());
    assert_eq!(select_token("abc+1", &m), Ok((Some(ident("abc")), 3)));
    let mut m = no_matches();
    m.number = Some("12".to_string());
    assert_eq!(select_token("12;", &m), Ok((Some(constant("12")), 2)));
}

#[test]
fn whitespace_is_skipped_without_a_token() {
    let mut m = no_matches();
    m.whitespace = Some("  ".to_string());
    assert_eq!(select_token("  x", &m), Ok((None, 2)));
}

#[test]
fn empty_or_overlong_match_counts_as_none() {
    let mut m = no_matches();
    m.identifier = Some(String::new());
    m.number = Some("12345".to_string());
    assert_eq!(select_token("<=1", &m), Ok((Some(Token::LessEqual), 2)));
    assert_eq!(select_token("#", &m), Err(CompileError::UnexpectedCharacter('#')));
}
