//! What the parser reports when the tokens are no program.

use crate::lexer::token::{Token, TokenView};
use crate::shared::{Positioned, Span};
use vstd::prelude::*;

verus! {

/// What was wrong. How this is worded for a reader is left to the host.
#[derive(Debug, PartialEq)]
pub enum ParseMessage {
    /// A token that cannot stand where it stands, or the end of the tokens.
    Unexpected(Option<Token>),
    /// One of the tokens of the list was expected, in place of what was found.
    Expected(Vec<Token>, Option<Token>),
    /// What the text describes was expected, in place of what was found.
    ExpectedKind(String, Option<Token>),
    /// A message in words.
    Text(String),
    /// So many tokens were left over.
    TooManyTokens(usize),
}

pub ghost enum ParseMessageView {
    Unexpected(Option<TokenView>),
    Expected(Seq<TokenView>, Option<TokenView>),
    ExpectedKind(Seq<char>, Option<TokenView>),
    Text(Seq<char>),
    TooManyTokens(usize),
}

/// The views of tokens without their spans.
pub open spec fn token_values(tokens: Seq<Token>) -> Seq<TokenView> {
    Seq::new(tokens.len(), |i: int| tokens[i]@)
}

pub open spec fn optional_token(token: Option<Token>) -> Option<TokenView> {
    match token {
        Some(token) => Some(token@),
        None => None,
    }
}

impl View for ParseMessage {
    type V = ParseMessageView;

    open spec fn view(&self) -> ParseMessageView {
        match self {
            ParseMessage::Unexpected(found) => ParseMessageView::Unexpected(optional_token(*found)),
            ParseMessage::Expected(expected, found) => ParseMessageView::Expected(
                token_values(expected@),
                optional_token(*found),
            ),
            ParseMessage::ExpectedKind(expected, found) => ParseMessageView::ExpectedKind(
                expected@,
                optional_token(*found),
            ),
            ParseMessage::Text(text) => ParseMessageView::Text(text@),
            ParseMessage::TooManyTokens(count) => ParseMessageView::TooManyTokens(*count),
        }
    }
}

/// Why parsing failed, and where.
#[derive(Debug, PartialEq)]
pub struct ParseError {
    pub message: ParseMessage,
    pub span: Option<Span>,
}

pub ghost struct ParseErrorView {
    pub message: ParseMessageView,
    pub span: Option<Span>,
}

impl View for ParseError {
    type V = ParseErrorView;

    open spec fn view(&self) -> ParseErrorView {
        ParseErrorView { message: self.message@, span: self.span }
    }
}

pub type ParseResult<T> = Result<T, ParseError>;

/// Results of the parser whose error can be given another message.
pub trait ParseResultExt: Sized {
    /// The result as it is where it is no error.
    spec fn kept(self, other: Self) -> bool;

    /// The message and the place of the error, where it is one.
    spec fn failure(self) -> Option<ParseErrorView>;

    /// The same result, an error with the message `message` in words.
    #[must_use]
    fn message(self, message: String) -> (result: Self)
        ensures
            match self.failure() {
                Some(error) => result.failure() == Some(
                    ParseErrorView { message: ParseMessageView::Text(message@), span: error.span },
                ),
                None => result.failure() is None && self.kept(result),
            },
    ;
}

impl<V> ParseResultExt for ParseResult<V> {
    open spec fn kept(self, other: Self) -> bool {
        self == other
    }

    open spec fn failure(self) -> Option<ParseErrorView> {
        match self {
            Ok(_) => None,
            Err(error) => Some(error@),
        }
    }

    fn message(self, message: String) -> (result: Self) {
        match self {
            Ok(value) => Ok(value),
            Err(error) => Err(ParseError { message: ParseMessage::Text(message), span: error.span }),
        }
    }
}

/// What the parser has to say about the token `found`, or about the end of
/// the tokens.
pub open spec fn found_view(found: Option<Positioned<TokenView>>) -> (Option<TokenView>, Option<Span>) {
    match found {
        Some(token) => (Some(token.value), Some(token.span)),
        None => (None, None),
    }
}

impl ParseErrorView {
    /// `found` cannot stand where it stands.
    pub open spec fn unexpected(found: Option<Positioned<TokenView>>) -> ParseErrorView {
        ParseErrorView {
            message: ParseMessageView::Unexpected(found_view(found).0),
            span: found_view(found).1,
        }
    }

    /// One of `expected` should stand where `found` stands.
    pub open spec fn expected(expected: Seq<TokenView>, found: Option<Positioned<TokenView>>) -> ParseErrorView {
        ParseErrorView {
            message: ParseMessageView::Expected(expected, found_view(found).0),
            span: found_view(found).1,
        }
    }
}

impl ParseError {
    /// An error with a message in words.
    pub fn new(value: String, span: Option<Span>) -> (error: Self)
        ensures
            error@ == (ParseErrorView { message: ParseMessageView::Text(value@), span }),
    {
        Self { message: ParseMessage::Text(value), span }
    }

    #[must_use]
    pub fn message(&self) -> (message: &ParseMessage)
        ensures
            message@ == self@.message,
    {
        &self.message
    }

    #[must_use]
    pub fn location(&self) -> (span: Option<Span>)
        ensures
            span == self@.span,
    {
        self.span
    }

    /// `found` cannot stand where it stands.
    pub fn unexpected_token(found: Option<Positioned<Token>>) -> (error: Self)
        ensures
            error@ == ParseErrorView::unexpected(
                match found {
                    Some(token) => Some(Positioned { value: token.value@, span: token.span }),
                    None => None,
                },
            ),
    {
        match found {
            Some(token) => Self {
                message: ParseMessage::Unexpected(Some(token.value)),
                span: Some(token.span),
            },
            None => Self { message: ParseMessage::Unexpected(None), span: None },
        }
    }

    /// One of `expected` should stand where `found` stands.
    pub fn expected_tokens(expected: Vec<Token>, found: Option<Positioned<Token>>) -> (error: Self)
        ensures
            error@ == ParseErrorView::expected(
                token_values(expected@),
                match found {
                    Some(token) => Some(Positioned { value: token.value@, span: token.span }),
                    None => None,
                },
            ),
    {
        match found {
            Some(token) => Self {
                message: ParseMessage::Expected(expected, Some(token.value)),
                span: Some(token.span),
            },
            None => Self { message: ParseMessage::Expected(expected, None), span: None },
        }
    }

    /// `expected` should stand where `found` stands.
    pub fn expected_token(expected: &Token, found: Option<Positioned<Token>>) -> (error: Self)
        ensures
            error@ == ParseErrorView::expected(
                seq![expected@],
                match found {
                    Some(token) => Some(Positioned { value: token.value@, span: token.span }),
                    None => None,
                },
            ),
    {
        let mut list: Vec<Token> = Vec::new();
        list.push(expected.clone());
        assert(token_values(list@) =~= seq![expected@]);
        Self::expected_tokens(list, found)
    }

    /// Tokens were left over behind what was parsed.
    #[must_use]
    pub fn too_much_tokens(tokens: &Vec<Positioned<Token>>) -> (error: Self)
        ensures
            error@ == (ParseErrorView {
                message: ParseMessageView::TooManyTokens(tokens.len()),
                span: None,
            }),
    {
        Self { message: ParseMessage::TooManyTokens(tokens.len()), span: None }
    }
}

} // verus!
