//! The stream of tokens that the parsers read, and their errors.

use crate::parser::lexer::token::{Token, token_text, token_views, TokenView};
use vstd::prelude::*;
use vstd::string::StringExecFns;

verus! {

/// Why a run of tokens is not a statement.
#[derive(Debug)]
pub struct ParseError {
    pub details: String,
}

impl ParseError {
    pub fn token_mismatch(want: Token, got: Token) -> (e: Self)
        ensures
            e.details@ == "Unexpected token ["@ + token_text(got@) + "] expected ["@ + token_text(
                want@,
            ) + "]"@,
    {
        let mut details = String::from_str("Unexpected token [");
        details.append(got.to_string().as_str());
        details.append("] expected [");
        details.append(want.to_string().as_str());
        details.append("]");
        ParseError { details }
    }

    pub fn unexpected_eof(want: Token) -> (e: Self)
        ensures
            e.details@ == "Unexpected eof wanted token ["@ + token_text(want@) + "]"@,
    {
        let mut details = String::from_str("Unexpected eof wanted token [");
        details.append(want.to_string().as_str());
        details.append("]");
        ParseError { details }
    }

    /// The message of this error.
    pub fn to_string(&self) -> (r: String)
        ensures
            r@ == self.details@,
    {
        self.details.clone()
    }
}

/// Tokens that are read one by one, with a look at the next one.
pub struct TokenStream {
    curr_index: usize,
    tokens: Vec<Token>,
}

pub type Input = TokenStream;

impl View for TokenStream {
    type V = Seq<TokenView>;

    /// The tokens that are still to be read, in order.
    closed spec fn view(&self) -> Seq<TokenView> {
        if self.curr_index <= self.tokens.len() {
            token_views(self.tokens@).skip(self.curr_index as int)
        } else {
            Seq::empty()
        }
    }
}

impl TokenStream {
    pub fn new(tokens: Vec<Token>) -> (r: Self)
        ensures
            r@ == token_views(tokens@),
    {
        let r = TokenStream { curr_index: 0, tokens };
        assert(r@ =~= token_views(tokens@));
        r
    }

    /// The next token, which stays in the stream.
    pub fn peek(&self) -> (r: Option<&Token>)
        ensures
            match r {
                Some(token) => self@.len() > 0 && token@ == self@[0],
                None => self@.len() == 0,
            },
    {
        if self.curr_index < self.tokens.len() {
            Some(&self.tokens[self.curr_index])
        } else {
            None
        }
    }

    /// The next token, which leaves the stream.
    pub fn next(&mut self) -> (r: Option<Token>)
        ensures
            match r {
                Some(token) => old(self)@.len() > 0 && token@ == old(self)@[0] && final(self)@
                    == old(self)@.skip(1),
                None => old(self)@.len() == 0 && final(self)@ == old(self)@,
            },
    {
        if self.curr_index < self.tokens.len() {
            self.curr_index += 1;
            assert(self@ =~= old(self)@.skip(1));
            Some(self.tokens[self.curr_index - 1].clone())
        } else {
            None
        }
    }
}

pub struct ParseHelper {}

impl ParseHelper {
    /// Succeeds where `got` is the token `want`.
    pub fn match_token(want: Token, got: Option<Token>) -> (r: Result<(), ParseError>)
        ensures
            r is Ok <==> (got is Some && got.unwrap()@ == want@),
    {
        match got {
            Some(got) => {
                if want.same_as(&got) {
                    Ok(())
                } else {
                    Err(ParseError::token_mismatch(want, got))
                }
            },
            None => Err(ParseError::unexpected_eof(want)),
        }
    }

    /// The name of `got` where it is an identifier.
    pub fn match_identifier(got: Option<Token>) -> (r: Result<String, ParseError>)
        ensures
            match got {
                Some(Token::Identifier(id)) => r is Ok && r.unwrap()@ == id@,
                _ => r is Err,
            },
    {
        match got {
            Some(Token::Identifier(id)) => Ok(id),
            Some(got) => Err(
                ParseError::token_mismatch(Token::Identifier(String::from_str("")), got),
            ),
            None => Err(ParseError::unexpected_eof(Token::Identifier(String::from_str("")))),
        }
    }
}

} // verus!
