//! The token grammar as mathematics: which token starts a character
//! sequence, and the whole token sequence of an input.
use vstd::prelude::*;

use crate::token::{is_operator, spelling, Token};

verus! {

/// Whether position `i` of `s` exists and holds `c`.
pub open spec fn char_at(s: Seq<char>, i: int, c: char) -> bool {
    0 <= i < s.len() && s[i] == c
}

/// The token at the start of `s`, and how many characters it takes.
/// Among `=`, `==`, `===`, `=>`, `<`, `<=`, `<<`, `<<=` the longest one
/// that `s` starts with wins; a space is `Whitespace`; any other character
/// is `Unknown`; nothing at all is `Eof`, which takes no character.
pub open spec fn first_token(s: Seq<char>) -> (Token, nat) {
    if s.len() == 0 {
        (Token::Eof, 0)
    } else if s[0] == '=' {
        if char_at(s, 1, '=') {
            if char_at(s, 2, '=') {
                (Token::EqStrict, 3)
            } else {
                (Token::Eq, 2)
            }
        } else if char_at(s, 1, '>') {
            (Token::Arrow, 2)
        } else {
            (Token::Assign, 1)
        }
    } else if s[0] == '<' {
        if char_at(s, 1, '=') {
            (Token::Lte, 2)
        } else if char_at(s, 1, '<') {
            if char_at(s, 2, '=') {
                (Token::ShlAssign, 3)
            } else {
                (Token::Shl, 2)
            }
        } else {
            (Token::Lt, 1)
        }
    } else if s[0] == ' ' {
        (Token::Whitespace, 1)
    } else {
        (Token::Unknown, 1)
    }
}

/// What is left of `s` once its first token is taken.
pub open spec fn after_first(s: Seq<char>) -> Seq<char> {
    s.skip(first_token(s).1 as int)
}

/// The full token sequence of `s`, ending in `Eof`.
pub open spec fn lex(s: Seq<char>) -> Seq<Token>
    decreases s.len(),
{
    if s.len() == 0 {
        seq![Token::Eof]
    } else {
        seq![first_token(s).0] + lex(after_first(s))
    }
}

/// The text of a token sequence, each token by its spelling.
pub open spec fn spell_all(ts: Seq<Token>) -> Seq<char>
    decreases ts.len(),
{
    if ts.len() == 0 {
        Seq::empty()
    } else {
        spelling(ts[0]) + spell_all(ts.drop_first())
    }
}

/// A non-empty input gives a token that takes at least one and at most
/// three of its characters; only the empty input gives `Eof`.
pub proof fn lemma_first_token_bounds(s: Seq<char>)
    ensures
        s.len() == 0 <==> first_token(s).0 == Token::Eof,
        s.len() == 0 ==> first_token(s).1 == 0,
        s.len() > 0 ==> 1 <= first_token(s).1 <= 3 && first_token(s).1 <= s.len(),
        after_first(s).len() == s.len() - first_token(s).1,
{
}

/// Scanning ends in exactly one `Eof`: it is the last token and no other
/// token is `Eof`.
pub proof fn lemma_single_final_eof(s: Seq<char>)
    ensures
        lex(s).len() >= 1,
        lex(s).last() == Token::Eof,
        forall|i: int| 0 <= i < lex(s).len() - 1 ==> lex(s)[i] != Token::Eof,
    decreases s.len(),
{
    lemma_first_token_bounds(s);
    if s.len() > 0 {
        let rest = after_first(s);
        lemma_single_final_eof(rest);
        assert forall|i: int| 0 <= i < lex(s).len() - 1 implies lex(s)[i] != Token::Eof by {
            if i > 0 {
                assert(lex(s)[i] == lex(rest)[i - 1]);
            }
        }
    }
}

/// A character that starts no operator and is no space is one `Unknown`
/// token of its own: it is never merged with what follows.
pub proof fn lemma_unknown_isolated(s: Seq<char>)
    requires
        s.len() > 0,
        s[0] != '=' && s[0] != '<' && s[0] != ' ',
    ensures
        first_token(s) == (Token::Unknown, 1nat),
        lex(s) == seq![Token::Unknown] + lex(s.drop_first()),
{
    assert(after_first(s) =~= s.drop_first());
}

/// Longest match: the first token's text is a prefix of the input, and no
/// operator whose text the input also starts with is longer.
pub proof fn lemma_longest_match(s: Seq<char>, t: Token)
    requires
        is_operator(t),
        spelling(t).len() <= s.len(),
        s.take(spelling(t).len() as int) == spelling(t),
    ensures
        is_operator(first_token(s).0),
        s.take(first_token(s).1 as int) == spelling(first_token(s).0),
        spelling(t).len() <= first_token(s).1,
{
    let n = spelling(t).len() as int;
    assert forall|i: int| 0 <= i < n implies s[i] == spelling(t)[i] by {
        assert(s.take(n)[i] == s[i]);
    }
    let (f, k) = first_token(s);
    assert(s.take(k as int) =~= spelling(f));
}

/// Every non-`Unknown` first token is spelled by exactly the characters
/// it takes.
pub proof fn lemma_first_token_spelled(s: Seq<char>)
    requires
        first_token(s).0 != Token::Unknown,
    ensures
        s.take(first_token(s).1 as int) == spelling(first_token(s).0),
{
    assert(s.take(first_token(s).1 as int) =~= spelling(first_token(s).0));
}

/// Round trip: when an input of `=`, `<`, `>` and spaces scans without an
/// `Unknown` token, spelling its tokens in order gives the input back.
pub proof fn lemma_round_trip(s: Seq<char>)
    requires
        forall|i: int| 0 <= i < s.len() ==> (s[i] == '=' || s[i] == '<' || s[i] == '>' || s[i] == ' '),
        forall|i: int| 0 <= i < lex(s).len() ==> lex(s)[i] != Token::Unknown,
    ensures
        spell_all(lex(s)) == s,
    decreases s.len(),
{
    lemma_first_token_bounds(s);
    if s.len() == 0 {
        assert(lex(s).drop_first() =~= Seq::<Token>::empty());
        assert(spell_all(Seq::<Token>::empty()) == Seq::<char>::empty());
        assert(spell_all(lex(s)) =~= s);
    } else {
        let (t, k) = first_token(s);
        let rest = after_first(s);
        assert(lex(s)[0] == t);
        assert forall|i: int| 0 <= i < rest.len() implies (rest[i] == '=' || rest[i] == '<'
            || rest[i] == '>' || rest[i] == ' ') by {
            assert(rest[i] == s[i + k]);
        }
        assert forall|i: int| 0 <= i < lex(rest).len() implies lex(rest)[i] != Token::Unknown by {
            assert(lex(s)[i + 1] == lex(rest)[i]);
        }
        lemma_round_trip(rest);
        lemma_first_token_spelled(s);
        assert(lex(s).drop_first() =~= lex(rest));
        assert(s =~= s.take(k as int) + rest);
    }
}

} // verus!
