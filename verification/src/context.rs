use vstd::prelude::*;

use crate::lexer::LexerError;
use crate::lexer::LexerErrorV;
use crate::token::FilePos;
use crate::token::Identifier;
use crate::token::Token;
use crate::token::TokenV;
use crate::token::Trace;
use crate::token::TracedToken;
use crate::token::token_eq;

verus! {

/// Mathematical model of a parser error.
pub enum ErrorV {
    Lexer(LexerErrorV),
    ExpectedToken { expected: TokenV, given: TokenV },
    UnexpectedToken(TokenV),
    InvalidArraySize(int),
}

/// An error of the parser: a lexer error carried through, a required token
/// that was not there, a token no grammar alternative could start with, or
/// an array length that is not a valid size.
#[derive(Debug, PartialEq)]
pub enum Error {
    Lexer(LexerError),
    ExpectedToken { expected: Token, given: Token },
    UnexpectedToken(Token),
    InvalidArraySize(i64),
}

impl View for Error {
    type V = ErrorV;

    open spec fn view(&self) -> ErrorV {
        match self {
            Error::Lexer(e) => ErrorV::Lexer(e@),
            Error::ExpectedToken { expected, given } => ErrorV::ExpectedToken {
                expected: expected@,
                given: given@,
            },
            Error::UnexpectedToken(t) => ErrorV::UnexpectedToken(t@),
            Error::InvalidArraySize(v) => ErrorV::InvalidArraySize(*v as int),
        }
    }
}

impl Error {
    /// An error for a token no grammar alternative could start with.
    pub fn unexpected_token(given: Token) -> (r: Error)
        ensures
            r@ == ErrorV::UnexpectedToken(given@),
    {
        Error::UnexpectedToken(given)
    }

    /// An error for a required token that was not there.
    pub fn expected_token(given: Token, expected: Token) -> (r: Error)
        ensures
            r@ == (ErrorV::ExpectedToken { expected: expected@, given: given@ }),
    {
        Error::ExpectedToken { expected, given }
    }
}

/// The token models of a traced token list, with the end-of-input sentinel
/// appended: the sequence a token stream walks over.
pub open spec fn stream_tokens(tokens: Seq<TracedToken>) -> Seq<TokenV> {
    Seq::new(tokens.len(), |i: int| tokens[i].token@).push(TokenV::EndOfInput)
}

/// The current token: the one at the cursor, or the sentinel out of range.
pub open spec fn cur(toks: Seq<TokenV>, pos: int) -> TokenV {
    if 0 <= pos < toks.len() {
        toks[pos]
    } else {
        TokenV::EndOfInput
    }
}

/// The cursor position one step on, clamped so that the last token — the
/// end-of-input sentinel — is always readable.
pub open spec fn adv(toks: Seq<TokenV>, pos: int) -> int {
    if pos + 1 < toks.len() {
        pos + 1
    } else {
        toks.len() - 1
    }
}

/// The larger of a lower bound and a position; the models use it to state
/// that a successful parse moved forward.
pub open spec fn at_least(lo: int, x: int) -> int {
    if x < lo {
        lo
    } else {
        x
    }
}

/// A cursor over a traced token sequence with one token of lookahead. The
/// sequence always ends in an end-of-input sentinel, and the cursor is
/// clamped so the sentinel stays readable: lookahead never runs out.
#[derive(Debug)]
pub struct TokenStream {
    tokens: Vec<TracedToken>,
    pos: usize,
}

impl TokenStream {
    /// The token models the stream walks over, sentinel included.
    pub closed spec fn toks(&self) -> Seq<TokenV> {
        Seq::new(self.tokens@.len(), |i: int| self.tokens@[i].token@)
    }

    /// The cursor position.
    pub closed spec fn pos(&self) -> int {
        self.pos as int
    }

    /// Well-formed: the sentinel stands last and the cursor is in range.
    pub open spec fn wf(&self) -> bool {
        &&& self.toks().len() >= 1
        &&& self.toks().last() == TokenV::EndOfInput
        &&& 0 <= self.pos() < self.toks().len()
    }

    /// A stream over the given tokens, with the end-of-input sentinel
    /// appended and the cursor at the start.
    pub fn new(tokens: Vec<TracedToken>) -> (s: Self)
        ensures
            s.wf(),
            s.pos() == 0,
            s.toks() == stream_tokens(tokens@),
    {
        let mut tokens = tokens;
        let ghost orig = tokens@;
        tokens.push(
            TracedToken {
                token: Token::EOF,
                trace: Trace {
                    source_file: String::new(),
                    begin_pos: FilePos::beginning(),
                    end_pos: FilePos::beginning(),
                },
            },
        );
        let s = TokenStream { tokens, pos: 0 };
        proof {
            assert(s.toks() =~= stream_tokens(orig));
        }
        s
    }

    /// Whether the cursor has reached the end of the input.
    pub fn is_eof(&self) -> (r: bool)
        requires
            self.wf(),
        ensures
            r == (cur(self.toks(), self.pos()) == TokenV::EndOfInput),
    {
        let t = self.curr_token();
        token_eq(t, &Token::EOF)
    }

    /// The token at the cursor.
    pub fn curr_token(&self) -> (r: &Token)
        requires
            self.wf(),
        ensures
            r@ == cur(self.toks(), self.pos()),
    {
        &self.tokens[self.pos].token
    }

    /// Moves the cursor one token on, clamped at the sentinel, and reads
    /// the token there.
    pub fn next(&mut self) -> (r: &Token)
        requires
            old(self).wf(),
        ensures
            final(self).wf(),
            final(self).toks() == old(self).toks(),
            final(self).pos() == adv(old(self).toks(), old(self).pos()),
            r@ == cur(final(self).toks(), final(self).pos()),
    {
        if self.pos < self.tokens.len() - 1 {
            self.pos = self.pos + 1;
        } else {
            self.pos = self.tokens.len() - 1;
        }
        self.curr_token()
    }

    /// Whether the token at the cursor equals the given one.
    pub fn is_curr(&self, token: &Token) -> (r: bool)
        requires
            self.wf(),
        ensures
            r == (cur(self.toks(), self.pos()) == token@),
    {
        token_eq(self.curr_token(), token)
    }

    /// Whether the token at the cursor differs from the given one.
    pub fn not_curr(&self, token: &Token) -> (r: bool)
        requires
            self.wf(),
        ensures
            r == (cur(self.toks(), self.pos()) != token@),
    {
        !self.is_curr(token)
    }

    /// Consumes the token at the cursor where it equals the given one;
    /// otherwise leaves the cursor alone.
    pub fn try_consume(&mut self, token: &Token) -> (r: Option<Token>)
        requires
            old(self).wf(),
        ensures
            final(self).wf(),
            final(self).toks() == old(self).toks(),
            if cur(old(self).toks(), old(self).pos()) == token@ {
                &&& r matches Some(t) && t@ == token@
                &&& final(self).pos() == adv(old(self).toks(), old(self).pos())
            } else {
                r is None && final(self).pos() == old(self).pos()
            },
    {
        if self.is_curr(token) {
            let tok = self.curr_token().clone();
            self.next();
            Some(tok)
        } else {
            None
        }
    }

    /// Consumes and yields the token at the cursor.
    pub fn take_curr(&mut self) -> (r: Token)
        requires
            old(self).wf(),
        ensures
            final(self).wf(),
            final(self).toks() == old(self).toks(),
            final(self).pos() == adv(old(self).toks(), old(self).pos()),
            r@ == cur(old(self).toks(), old(self).pos()),
    {
        let curr = self.curr_token().clone();
        self.next();
        curr
    }

    /// Consumes the token at the cursor, which must equal the expected
    /// one; fails with `ExpectedToken` otherwise.
    pub fn consume(&mut self, token: &Token) -> (r: Result<Token, Error>)
        requires
            old(self).wf(),
        ensures
            final(self).wf(),
            final(self).toks() == old(self).toks(),
            final(self).pos() == adv(old(self).toks(), old(self).pos()),
            if cur(old(self).toks(), old(self).pos()) == token@ {
                r matches Ok(t) && t@ == token@
            } else {
                r matches Err(e) && e@ == (ErrorV::ExpectedToken {
                    expected: token@,
                    given: cur(old(self).toks(), old(self).pos()),
                })
            },
    {
        let given = self.take_curr();
        if token_eq(&given, token) {
            Ok(given)
        } else {
            Err(Error::ExpectedToken { expected: token.clone(), given })
        }
    }

    /// Consumes an identifier token at the cursor and yields its name;
    /// fails with `ExpectedToken` otherwise.
    pub fn consume_identifier(&mut self) -> (r: Result<Identifier, Error>)
        requires
            old(self).wf(),
        ensures
            final(self).wf(),
            final(self).toks() == old(self).toks(),
            final(self).pos() == adv(old(self).toks(), old(self).pos()),
            match cur(old(self).toks(), old(self).pos()) {
                TokenV::Identifier(name) => r matches Ok(i) && i@ == name,
                t => r matches Err(e) && e@ == (ErrorV::ExpectedToken {
                    expected: TokenV::Identifier(Seq::empty()),
                    given: t,
                }),
            },
    {
        match self.take_curr() {
            Token::Identifier(ident) => Ok(ident),
            token => {
                let r = Err(
                    Error::ExpectedToken {
                        expected: Token::Identifier(Identifier(String::new())),
                        given: token,
                    },
                );
                r
            },
        }
    }
}

} // verus!