use vstd::prelude::*;

verus! {

/// One classified lexical unit. Tokens carry no text and no position.
#[derive(PartialEq, Eq, Structural, Debug, Clone, Copy)]
pub enum Token {
    /// `=`
    Assign,
    /// `=>`
    Arrow,
    /// `==`
    Eq,
    /// `===`
    EqStrict,
    /// `<`
    Lt,
    /// `<=`
    Lte,
    /// `<<`
    Shl,
    /// `<<=`
    ShlAssign,
    /// A single space character.
    Whitespace,
    /// End of input.
    Eof,
    /// Any single character that starts no other token.
    Unknown,
}

/// The canonical source text of a token. `Eof` has none, and `Unknown`
/// stands for whichever character it replaced, so it has none here either.
pub open spec fn spelling(t: Token) -> Seq<char> {
    match t {
        Token::Assign => seq!['='],
        Token::Arrow => seq!['=', '>'],
        Token::Eq => seq!['=', '='],
        Token::EqStrict => seq!['=', '=', '='],
        Token::Lt => seq!['<'],
        Token::Lte => seq!['<', '='],
        Token::Shl => seq!['<', '<'],
        Token::ShlAssign => seq!['<', '<', '='],
        Token::Whitespace => seq![' '],
        Token::Eof => Seq::empty(),
        Token::Unknown => Seq::empty(),
    }
}

/// Whether a token is one of the eight operators.
pub open spec fn is_operator(t: Token) -> bool {
    !(t is Whitespace || t is Eof || t is Unknown)
}

} // verus!
