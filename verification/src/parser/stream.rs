//! The parser's view of the tokens: it takes them one by one and looks a few
//! ahead.

use crate::lexer::token::{token_view, tokens_view, Token, TokenView};
use crate::parser::error::{
    token_values, ParseError, ParseErrorView, ParseMessage, ParseMessageView, ParseResult,
};
use crate::parser::rules::{check, consume, first};
use crate::parser::tokens::{collect_tokens, next_token, open_tokens, peek_token, pending_tokens};
use crate::shared::Positioned;
use peekmore::PeekMoreIterator;
use std::vec::IntoIter;
use vstd::prelude::*;

verus! {

/// The tokens that are still to parse.
pub struct Parser {
    tokens: PeekMoreIterator<IntoIter<Positioned<Token>>>,
}

impl View for Parser {
    type V = Seq<Positioned<TokenView>>;

    closed spec fn view(&self) -> Seq<Positioned<TokenView>> {
        tokens_view(pending_tokens(self.tokens))
    }
}

/// A token at its place, if there is one.
pub open spec fn optional_view(token: Option<Positioned<Token>>) -> Option<Positioned<TokenView>> {
    match token {
        Some(token) => Some(token_view(token)),
        None => None,
    }
}

impl Parser {
    #[must_use]
    pub fn new(tokens: Vec<Positioned<Token>>) -> (parser: Self)
        ensures
            parser@ == tokens_view(tokens@),
    {
        Self { tokens: open_tokens(tokens) }
    }

    /// Takes the next token.
    pub fn next(&mut self) -> (token: Option<Positioned<Token>>)
        ensures
            optional_view(token) == first(old(self)@),
            final(self)@ == if old(self)@.len() > 0 {
                old(self)@.drop_first()
            } else {
                old(self)@
            },
    {
        let ghost before = pending_tokens(self.tokens);
        let token = next_token(&mut self.tokens);
        proof {
            if before.len() > 0 {
                assert(tokens_view(before.drop_first()) =~= tokens_view(before).drop_first());
            }
        }
        token
    }

    /// A copy of the token that lies `ahead` places behind the next one.
    fn peek_nth(&mut self, ahead: usize) -> (token: Option<Positioned<Token>>)
        requires
            ahead < crate::lexer::chars::LOOKAHEAD,
        ensures
            final(self)@ == old(self)@,
            optional_view(token) == if ahead < old(self)@.len() {
                Some(old(self)@[ahead as int])
            } else {
                None
            },
    {
        peek_token(&mut self.tokens, ahead)
    }

    /// A copy of the next token.
    pub fn peek(&mut self) -> (token: Option<Positioned<Token>>)
        ensures
            final(self)@ == old(self)@,
            optional_view(token) == first(old(self)@),
    {
        self.peek_nth(0)
    }

    /// The tokens that are left.
    #[must_use]
    pub fn collect(self) -> (tokens: Vec<Positioned<Token>>)
        ensures
            tokens_view(tokens@) == self@,
    {
        collect_tokens(self.tokens)
    }

    /// Whether the token `ahead` places behind the next one is `value`.
    fn check_nth(&mut self, ahead: usize, value: &Token) -> (found: bool)
        requires
            ahead < crate::lexer::chars::LOOKAHEAD,
        ensures
            final(self)@ == old(self)@,
            found == (ahead < old(self)@.len() && old(self)@[ahead as int].value == value@),
    {
        match self.peek_nth(ahead) {
            Some(token) => token.value.same(value),
            None => false,
        }
    }

    /// Whether the next token is `value`.
    pub fn check(&mut self, value: &Token) -> (found: bool)
        ensures
            final(self)@ == old(self)@,
            found == check(old(self)@, value@),
    {
        self.check_nth(0, value)
    }

    /// Whether the token behind the next one is `value`.
    pub fn check2(&mut self, value: &Token) -> (found: bool)
        ensures
            final(self)@ == old(self)@,
            found == (old(self)@.len() > 1 && old(self)@[1].value == value@),
    {
        self.check_nth(1, value)
    }

    /// Whether the third token from here is `value`.
    pub fn check3(&mut self, value: &Token) -> (found: bool)
        ensures
            final(self)@ == old(self)@,
            found == (old(self)@.len() > 2 && old(self)@[2].value == value@),
    {
        self.check_nth(2, value)
    }

    /// Whether `func` holds of the token `ahead` places behind the next one.
    fn check_nth_if<F: Fn(&Token) -> bool>(&mut self, ahead: usize, func: F) -> (found: bool)
        requires
            ahead < crate::lexer::chars::LOOKAHEAD,
            forall|token: &Token| func.requires((token,)),
        ensures
            final(self)@ == old(self)@,
            ahead >= old(self)@.len() ==> !found,
            ahead < old(self)@.len() ==> exists|token: Token|
                token@ == old(self)@[ahead as int].value && #[trigger] func.ensures((&token,), found),
    {
        match self.peek_nth(ahead) {
            Some(token) => func(&token.value),
            None => false,
        }
    }

    /// Whether there is a next token and `func` holds of it.
    pub fn check_if<F: Fn(&Token) -> bool>(&mut self, func: F) -> (found: bool)
        requires
            forall|token: &Token| func.requires((token,)),
        ensures
            final(self)@ == old(self)@,
            old(self)@.len() == 0 ==> !found,
            old(self)@.len() > 0 ==> exists|token: Token|
                token@ == old(self)@[0].value && #[trigger] func.ensures((&token,), found),
    {
        self.check_nth_if(0, func)
    }

    /// Whether there is a token behind the next one and `func` holds of it.
    pub fn check2_if<F: Fn(&Token) -> bool>(&mut self, func: F) -> (found: bool)
        requires
            forall|token: &Token| func.requires((token,)),
        ensures
            final(self)@ == old(self)@,
            old(self)@.len() <= 1 ==> !found,
            old(self)@.len() > 1 ==> exists|token: Token|
                token@ == old(self)@[1].value && #[trigger] func.ensures((&token,), found),
    {
        self.check_nth_if(1, func)
    }

    /// Whether there is a third token from here and `func` holds of it.
    pub fn check3_if<F: Fn(&Token) -> bool>(&mut self, func: F) -> (found: bool)
        requires
            forall|token: &Token| func.requires((token,)),
        ensures
            final(self)@ == old(self)@,
            old(self)@.len() <= 2 ==> !found,
            old(self)@.len() > 2 ==> exists|token: Token|
                token@ == old(self)@[2].value && #[trigger] func.ensures((&token,), found),
    {
        self.check_nth_if(2, func)
    }

    /// The error for a token that cannot stand `ahead` places behind the next
    /// one.
    fn unexpected_nth(&mut self, ahead: usize) -> (error: ParseError)
        requires
            ahead < crate::lexer::chars::LOOKAHEAD,
        ensures
            final(self)@ == old(self)@,
            error@ == ParseErrorView::unexpected(
                if ahead < old(self)@.len() {
                    Some(old(self)@[ahead as int])
                } else {
                    None
                },
            ),
    {
        ParseError::unexpected_token(self.peek_nth(ahead))
    }

    /// The error for the next token, which cannot stand where it stands.
    pub fn unexpected(&mut self) -> (error: ParseError)
        ensures
            final(self)@ == old(self)@,
            error@ == ParseErrorView::unexpected(first(old(self)@)),
    {
        self.unexpected_nth(0)
    }

    fn verify_nth(&mut self, ahead: usize, token: &Token) -> (result: ParseResult<()>)
        requires
            ahead < crate::lexer::chars::LOOKAHEAD,
        ensures
            final(self)@ == old(self)@,
            result is Ok == (ahead < old(self)@.len() && old(self)@[ahead as int].value == token@),
            result matches Err(error) ==> error@ == ParseErrorView::unexpected(
                if ahead < old(self)@.len() {
                    Some(old(self)@[ahead as int])
                } else {
                    None
                },
            ),
    {
        if self.check_nth(ahead, token) {
            Ok(())
        } else {
            Err(self.unexpected_nth(ahead))
        }
    }

    /// Fails unless the next token is `token`. Takes nothing.
    pub fn verify(&mut self, token: &Token) -> (result: ParseResult<()>)
        ensures
            final(self)@ == old(self)@,
            result is Ok == check(old(self)@, token@),
            result matches Err(error) ==> error@ == ParseErrorView::unexpected(first(old(self)@)),
    {
        self.verify_nth(0, token)
    }

    /// Fails unless the token behind the next one is `token`. Takes nothing.
    pub fn verify2(&mut self, token: &Token) -> (result: ParseResult<()>)
        ensures
            final(self)@ == old(self)@,
            result is Ok == (old(self)@.len() > 1 && old(self)@[1].value == token@),
            result matches Err(error) ==> error@ == ParseErrorView::unexpected(
                if old(self)@.len() > 1 {
                    Some(old(self)@[1])
                } else {
                    None
                },
            ),
    {
        self.verify_nth(1, token)
    }

    /// Fails unless the third token from here is `token`. Takes nothing.
    pub fn verify3(&mut self, token: &Token) -> (result: ParseResult<()>)
        ensures
            final(self)@ == old(self)@,
            result is Ok == (old(self)@.len() > 2 && old(self)@[2].value == token@),
            result matches Err(error) ==> error@ == ParseErrorView::unexpected(
                if old(self)@.len() > 2 {
                    Some(old(self)@[2])
                } else {
                    None
                },
            ),
    {
        self.verify_nth(2, token)
    }

    fn verify_nth_if<F: Fn(&Token) -> bool>(&mut self, ahead: usize, func: F) -> (result: ParseResult<
        (),
    >)
        requires
            ahead < crate::lexer::chars::LOOKAHEAD,
            forall|token: &Token| func.requires((token,)),
        ensures
            final(self)@ == old(self)@,
            ahead >= old(self)@.len() ==> result is Err,
            ahead < old(self)@.len() ==> exists|token: Token|
                token@ == old(self)@[ahead as int].value && #[trigger] func.ensures((&token,), result is Ok),
            result matches Err(error) ==> error@ == ParseErrorView::unexpected(
                if ahead < old(self)@.len() {
                    Some(old(self)@[ahead as int])
                } else {
                    None
                },
            ),
    {
        if self.check_nth_if(ahead, func) {
            Ok(())
        } else {
            Err(self.unexpected_nth(ahead))
        }
    }

    /// Fails unless `func` holds of the next token. Takes nothing.
    pub fn verify_if<F: Fn(&Token) -> bool>(&mut self, func: F) -> (result: ParseResult<()>)
        requires
            forall|token: &Token| func.requires((token,)),
        ensures
            final(self)@ == old(self)@,
            result matches Err(error) ==> error@ == ParseErrorView::unexpected(
                first(old(self)@),
            ),
            old(self)@.len() == 0 ==> result is Err,
            old(self)@.len() > 0 ==> exists|token: Token|
                token@ == old(self)@[0].value && #[trigger] func.ensures((&token,), result is Ok),
    {
        self.verify_nth_if(0, func)
    }

    /// Fails unless `func` holds of the token behind the next one.
    pub fn verify2_if<F: Fn(&Token) -> bool>(&mut self, func: F) -> (result: ParseResult<()>)
        requires
            forall|token: &Token| func.requires((token,)),
        ensures
            final(self)@ == old(self)@,
            result matches Err(error) ==> error@ == ParseErrorView::unexpected(
                if old(self)@.len() > 1 {
                    Some(old(self)@[1])
                } else {
                    None
                },
            ),
            old(self)@.len() <= 1 ==> result is Err,
            old(self)@.len() > 1 ==> exists|token: Token|
                token@ == old(self)@[1].value && #[trigger] func.ensures((&token,), result is Ok),
    {
        self.verify_nth_if(1, func)
    }

    /// Fails unless `func` holds of the third token from here.
    pub fn verify3_if<F: Fn(&Token) -> bool>(&mut self, func: F) -> (result: ParseResult<()>)
        requires
            forall|token: &Token| func.requires((token,)),
        ensures
            final(self)@ == old(self)@,
            result matches Err(error) ==> error@ == ParseErrorView::unexpected(
                if old(self)@.len() > 2 {
                    Some(old(self)@[2])
                } else {
                    None
                },
            ),
            old(self)@.len() <= 2 ==> result is Err,
            old(self)@.len() > 2 ==> exists|token: Token|
                token@ == old(self)@[2].value && #[trigger] func.ensures((&token,), result is Ok),
    {
        self.verify_nth_if(2, func)
    }

    /// Takes the next token where it is `value`, and says whether it did.
    pub fn try_consume(&mut self, value: &Token) -> (taken: bool)
        ensures
            taken == check(old(self)@, value@),
            final(self)@ == crate::parser::rules::skip(old(self)@, value@),
    {
        if self.check(value) {
            self.next();
            true
        } else {
            false
        }
    }

    /// Takes the next token where it is `value`, and fails where it is not.
    pub fn consume(&mut self, value: &Token) -> (result: ParseResult<Positioned<Token>>)
        ensures
            match consume(old(self)@, value@) {
                Ok((token, rest)) => result matches Ok(found) && token_view(found) == token
                    && final(self)@ == rest && final(self)@.len() < old(self)@.len(),
                Err(stuck) => result matches Err(found) && found@ == stuck.error && final(self)@
                    == stuck.rest,
            },
    {
        if self.check(value) {
            Ok(self.next().unwrap())
        } else {
            Err(ParseError::expected_token(value, self.peek()))
        }
    }

    /// Takes the next token where it is one of `values`, and fails where it is
    /// not.
    pub fn consume_one_of(&mut self, values: &Vec<Token>) -> (result: ParseResult<Positioned<Token>>)
        ensures
            match result {
                Ok(found) => old(self)@.len() > 0 && token_view(found) == old(self)@[0]
                    && token_values(values@).contains(found.value@) && final(self)@
                    == old(self)@.drop_first(),
                Err(error) => error@ == ParseErrorView::expected(
                    token_values(values@),
                    first(old(self)@),
                ) && final(self)@ == old(self)@ && (old(self)@.len() > 0
                    ==> !token_values(values@).contains(old(self)@[0].value)),
            },
    {
        let next = self.peek();
        let mut found = false;
        if let Some(token) = &next {
            let mut i: usize = 0;
            while i < values.len()
                invariant
                    i <= values.len(),
                    found == exists|k: int| 0 <= k < i && token_values(values@)[k] == token.value@,
                decreases values.len() - i,
            {
                if values[i].same(&token.value) {
                    found = true;
                    assert(token_values(values@)[i as int] == token.value@);
                }
                i += 1;
            }
        }
        if found {
            Ok(self.next().unwrap())
        } else {
            let mut expected: Vec<Token> = Vec::new();
            let mut i: usize = 0;
            while i < values.len()
                invariant
                    i <= values.len(),
                    expected.len() == i,
                    forall|k: int| 0 <= k < i ==> expected[k]@ == values[k]@,
                decreases values.len() - i,
            {
                expected.push(values[i].clone());
                i += 1;
            }
            assert(token_values(expected@) =~= token_values(values@));
            Err(ParseError::expected_tokens(expected, next))
        }
    }

    /// Takes the next token where `func` holds of it.
    pub fn next_if<F: Fn(&Token) -> bool>(&mut self, func: F) -> (token: Option<Positioned<Token>>)
        requires
            forall|token: &Token| func.requires((token,)),
        ensures
            match token {
                Some(found) => old(self)@.len() > 0 && token_view(found) == old(self)@[0]
                    && final(self)@ == old(self)@.drop_first() && exists|seen: Token|
                    seen@ == old(self)@[0].value && #[trigger] func.ensures((&seen,), true),
                None => final(self)@ == old(self)@,
            },
    {
        if self.check_if(func) {
            self.next()
        } else {
            None
        }
    }

    /// Takes the next token where `func` holds of it, and fails where it does
    /// not.
    pub fn consume_if<F: Fn(&Token) -> bool>(&mut self, func: F) -> (result: ParseResult<
        Positioned<Token>,
    >)
        requires
            forall|token: &Token| func.requires((token,)),
        ensures
            match result {
                Ok(found) => old(self)@.len() > 0 && token_view(found) == old(self)@[0]
                    && final(self)@ == old(self)@.drop_first() && exists|seen: Token|
                    seen@ == old(self)@[0].value && #[trigger] func.ensures((&seen,), true),
                Err(error) => error@ == ParseErrorView::unexpected(first(old(self)@))
                    && final(self)@ == old(self)@,
            },
    {
        match self.next_if(func) {
            Some(token) => Ok(token),
            None => Err(self.unexpected()),
        }
    }

    /// Takes the next token where `func` makes something of it, and gives what
    /// it makes at the place of the token.
    pub fn consume_map<T, F: Fn(&Token) -> Option<T>>(&mut self, func: F) -> (result: ParseResult<
        Positioned<T>,
    >)
        requires
            forall|token: &Token| func.requires((token,)),
        ensures
            match result {
                Ok(found) => old(self)@.len() > 0 && found.span == old(self)@[0].span
                    && final(self)@ == old(self)@.drop_first() && exists|seen: Token|
                    seen@ == old(self)@[0].value && #[trigger] func.ensures((&seen,), Some(found.value)),
                Err(error) => error@ == ParseErrorView::unexpected(first(old(self)@))
                    && final(self)@ == old(self)@,
            },
    {
        match self.peek() {
            Some(token) => match func(&token.value) {
                Some(value) => {
                    self.next();
                    let found = token.span.wrap(value);
                    assert(token.value@ == old(self)@[0].value && func.ensures(
                        (&token.value,),
                        Some(found.value),
                    ));
                    Ok(found)
                },
                None => Err(self.unexpected()),
            },
            None => Err(self.unexpected()),
        }
    }

    /// The error for the next token where `expected` should stand.
    pub fn expected_token(&mut self, expected: String) -> (error: ParseError)
        ensures
            final(self)@ == old(self)@,
            error@ == (ParseErrorView {
                message: ParseMessageView::ExpectedKind(
                    expected@,
                    crate::parser::error::found_view(first(old(self)@)).0,
                ),
                span: crate::parser::error::found_view(first(old(self)@)).1,
            }),
    {
        match self.peek() {
            Some(token) => ParseError {
                message: ParseMessage::ExpectedKind(expected, Some(token.value)),
                span: Some(token.span),
            },
            None => ParseError { message: ParseMessage::ExpectedKind(expected, None), span: None },
        }
    }
}

} // verus!
