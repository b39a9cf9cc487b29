use lexer::{Lexer, Token};

#[test]
fn assign() {
    assert_eq!(Lexer::get_tokens("="), vec![Token::Assign, Token::Eof]);
}

#[test]
fn arrow() {
    assert_eq!(Lexer::get_tokens("=>"), vec![Token::Arrow, Token::Eof]);
}

#[test]
fn eq() {
    assert_eq!(Lexer::get_tokens("=="), vec![Token::Eq, Token::Eof]);
}

#[test]
fn eq_strict() {
    assert_eq!(Lexer::get_tokens("==="), vec![Token::EqStrict, Token::Eof]);
}

#[test]
fn unknown() {
    assert_eq!(Lexer::get_tokens("\u{e4}"), vec![Token::Unknown, Token::Eof]);
}

#[test]
fn eof() {
    assert_eq!(Lexer::get_tokens(""), vec![Token::Eof]);
}

#[test]
fn whitespace() {
    assert_eq!(Lexer::get_tokens(" "), vec![Token::Whitespace, Token::Eof]);
}

#[test]
fn assign_and_whitespace() {
    assert_eq!(
        Lexer::get_tokens("= "),
        vec![Token::Assign, Token::Whitespace, Token::Eof]
    );
}

#[test]
fn multiple_tokens_of_different_lengths() {
    assert_eq!(
        Lexer::get_tokens("=> <<= = <<"),
        vec![
            Token::Arrow,
            Token::Whitespace,
            Token::ShlAssign,
            Token::Whitespace,
            Token::Assign,
            Token::Whitespace,
            Token::Shl,
            Token::Eof
        ]
    );
}

#[test]
fn lt() {
    assert_eq!(Lexer::get_tokens("<"), vec![Token::Lt, Token::Eof]);
}

#[test]
fn lte() {
    assert_eq!(Lexer::get_tokens("<="), vec![Token::Lte, Token::Eof]);
}

#[test]
fn shl() {
    assert_eq!(Lexer::get_tokens("<<"), vec![Token::Shl, Token::Eof]);
}

#[test]
fn shlassign() {
    assert_eq!(Lexer::get_tokens("<<="), vec![Token::ShlAssign, Token::Eof]);
}
