//! The scanner: a hand-unrolled automaton over the two operator families,
//! with one pending character for lookahead that did not belong to the
//! token just emitted.
use vstd::prelude::*;

use crate::grammar::{after_first, first_token, lemma_first_token_bounds, lemma_single_final_eof, lex};
use crate::token::Token;

verus! {

/// A character put back in front of the rest of a text; `None` puts nothing.
pub open spec fn put_back(c: Option<char>, rest: Seq<char>) -> Seq<char> {
    match c {
        Some(x) => seq![x] + rest,
        None => rest,
    }
}

/// A scanner over the characters of a text.
pub struct Lexer {
    chars: Vec<char>,
    pos: usize,
    pending: Option<char>,
}

impl Lexer {
    /// The cursor stays within the text.
    pub closed spec fn wf(&self) -> bool {
        self.pos <= self.chars@.len()
    }

    /// The characters that are still to be scanned, the pending one first.
    pub closed spec fn rest(&self) -> Seq<char> {
        put_back(self.pending, self.chars@.skip(self.pos as int))
    }

    /// A scanner positioned at the start of `input`.
    pub fn new(input: &str) -> (r: Lexer)
        ensures
            r.wf(),
            r.rest() == input@,
    {
        let mut chars: Vec<char> = Vec::new();
        for c in it: input.chars()
            invariant
                chars@ == it.seq().take(it.index() as int),
        {
            chars.push(c);
            assert(chars@ =~= it.seq().take(it.index() + 1));
        }
        assert(chars@ =~= input@);
        let r = Lexer { chars, pos: 0, pending: None };
        assert(r.chars@.skip(0) =~= r.chars@);
        r
    }

    /// The whole token sequence of `input`, ending in exactly one `Eof`.
    pub fn get_tokens(input: &str) -> (r: Vec<Token>)
        ensures
            r@ == lex(input@),
            r@.len() >= 1,
            r@.last() == Token::Eof,
            forall|i: int| 0 <= i < r@.len() - 1 ==> r@[i] != Token::Eof,
    {
        let mut lexer = Lexer::new(input);
        let mut tokens: Vec<Token> = Vec::new();
        loop
            invariant
                lexer.wf(),
                tokens@ + lex(lexer.rest()) == lex(input@),
            decreases lexer.rest().len(),
        {
            let ghost before = lexer.rest();
            let t = lexer.next_token();
            proof {
                lemma_first_token_bounds(before);
                assert(lex(before) == seq![t] + lex(lexer.rest()) || before.len() == 0);
            }
            tokens.push(t);
            if t == Token::Eof {
                assert(tokens@ =~= lex(input@));
                proof {
                    lemma_single_final_eof(input@);
                }
                return tokens;
            }
            assert(tokens@ + lex(lexer.rest()) =~= lex(input@));
        }
    }

    /// Scans one token and returns it. Once the text is used up every call
    /// returns `Eof` and leaves the scanner as it is.
    pub fn next_token(&mut self) -> (t: Token)
        requires
            old(self).wf(),
        ensures
            final(self).wf(),
            t == first_token(old(self).rest()).0,
            final(self).rest() == after_first(old(self).rest()),
    {
        let c = self.advance();
        self.match_char(c)
    }

    /// Once a scanner has used up its text, the next call of `next_token`
    /// returns `Eof` and leaves it with nothing to scan, so every later call
    /// returns `Eof` again.
    pub proof fn lemma_end_of_stream_is_stable(&self)
        requires
            self.wf(),
            self.rest().len() == 0,
        ensures
            first_token(self.rest()).0 == Token::Eof,
            after_first(self.rest()) == self.rest(),
            first_token(after_first(self.rest())).0 == Token::Eof,
    {
        assert(self.rest().skip(0) =~= self.rest());
    }

    /// Takes the next character: the pending one if there is one, else the
    /// one under the cursor.
    fn advance(&mut self) -> (r: Option<char>)
        requires
            old(self).wf(),
        ensures
            final(self).wf(),
            final(self).pending is None,
            put_back(r, final(self).rest()) == old(self).rest(),
            r is None ==> old(self).rest().len() == 0,
    {
        match self.pending {
            Some(c) => {
                self.pending = None;
                Some(c)
            },
            None => {
                if self.pos < self.chars.len() {
                    let c = self.chars[self.pos];
                    assert(self.chars@.skip(self.pos as int) =~= seq![c] + self.chars@.skip(
                        self.pos + 1,
                    ));
                    self.pos = self.pos + 1;
                    Some(c)
                } else {
                    None
                }
            },
        }
    }

    /// Classifies `c`, the character just taken, as the start of a token.
    fn match_char(&mut self, c: Option<char>) -> (t: Token)
        requires
            old(self).wf(),
            old(self).pending is None,
            c is None ==> old(self).rest().len() == 0,
        ensures
            final(self).wf(),
            t == first_token(put_back(c, old(self).rest())).0,
            final(self).rest() == after_first(put_back(c, old(self).rest())),
    {
        let ghost s = put_back(c, self.rest());
        match c {
            Some('=') => {
                let next = self.advance();
                self.match_assign(next)
            },
            Some('<') => {
                let next = self.advance();
                self.match_lt(next)
            },
            Some(' ') => {
                assert(after_first(s) =~= self.rest());
                Token::Whitespace
            },
            None => {
                assert(after_first(s) =~= self.rest());
                Token::Eof
            },
            _ => {
                assert(after_first(s) =~= self.rest());
                Token::Unknown
            },
        }
    }

    /// Finishes a token that began with `=`; `c` is the lookahead after it.
    fn match_assign(&mut self, c: Option<char>) -> (t: Token)
        requires
            old(self).wf(),
            old(self).pending is None,
            c is None ==> old(self).rest().len() == 0,
        ensures
            final(self).wf(),
            t == first_token(seq!['='] + put_back(c, old(self).rest())).0,
            final(self).rest() == after_first(seq!['='] + put_back(c, old(self).rest())),
    {
        let ghost s = seq!['='] + put_back(c, self.rest());
        match c {
            Some('=') => {
                let next = self.advance();
                self.match_eq(next)
            },
            Some('>') => {
                assert(after_first(s) =~= self.rest());
                Token::Arrow
            },
            _ => {
                self.pending = c;
                assert(after_first(s) =~= self.rest());
                Token::Assign
            },
        }
    }

    /// Finishes a token that began with `==`; `c` is the lookahead after it.
    fn match_eq(&mut self, c: Option<char>) -> (t: Token)
        requires
            old(self).wf(),
            old(self).pending is None,
            c is None ==> old(self).rest().len() == 0,
        ensures
            final(self).wf(),
            t == first_token(seq!['=', '='] + put_back(c, old(self).rest())).0,
            final(self).rest() == after_first(seq!['=', '='] + put_back(c, old(self).rest())),
    {
        let ghost s = seq!['=', '='] + put_back(c, self.rest());
        match c {
            Some('=') => {
                assert(after_first(s) =~= self.rest());
                Token::EqStrict
            },
            _ => {
                self.pending = c;
                assert(after_first(s) =~= self.rest());
                Token::Eq
            },
        }
    }

    /// Finishes a token that began with `<`; `c` is the lookahead after it.
    fn match_lt(&mut self, c: Option<char>) -> (t: Token)
        requires
            old(self).wf(),
            old(self).pending is None,
            c is None ==> old(self).rest().len() == 0,
        ensures
            final(self).wf(),
            t == first_token(seq!['<'] + put_back(c, old(self).rest())).0,
            final(self).rest() == after_first(seq!['<'] + put_back(c, old(self).rest())),
    {
        let ghost s = seq!['<'] + put_back(c, self.rest());
        match c {
            Some('=') => {
                assert(after_first(s) =~= self.rest());
                Token::Lte
            },
            Some('<') => {
                let next = self.advance();
                self.match_shl(next)
            },
            _ => {
                self.pending = c;
                assert(after_first(s) =~= self.rest());
                Token::Lt
            },
        }
    }

    /// Finishes a token that began with `<<`; `c` is the lookahead after it.
    fn match_shl(&mut self, c: Option<char>) -> (t: Token)
        requires
            old(self).wf(),
            old(self).pending is None,
            c is None ==> old(self).rest().len() == 0,
        ensures
            final(self).wf(),
            t == first_token(seq!['<', '<'] + put_back(c, old(self).rest())).0,
            final(self).rest() == after_first(seq!['<', '<'] + put_back(c, old(self).rest())),
    {
        let ghost s = seq!['<', '<'] + put_back(c, self.rest());
        match c {
            Some('=') => {
                assert(after_first(s) =~= self.rest());
                Token::ShlAssign
            },
            _ => {
                self.pending = c;
                assert(after_first(s) =~= self.rest());
                Token::Shl
            },
        }
    }
}

} // verus!
