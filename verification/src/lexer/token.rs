//! Tokens.

use crate::shared::{Decimal, DecimalView, Positioned};
use vstd::prelude::*;

verus! {

/// A piece of a string with interpolations: text as it stands, or the tokens
/// of an expression written between braces.
#[derive(Debug, PartialEq)]
pub enum StringPart {
    String(String),
    Formatted(Vec<Positioned<Token>>),
}

#[derive(Debug, PartialEq)]
pub enum Token {
    Ident(String),
    FormattedString(Vec<StringPart>),
    String(String),
    Float(Decimal),
    Integer(i64),
    Boolean(bool),
    Record,
    Struct,
    Const,
    Let,
    While,
    For,
    In,
    If,
    Else,
    Func,
    Match,
    BracketOpen,
    BracketClose,
    BraceOpen,
    BraceClose,
    ParenOpen,
    ParenClose,
    Colon,
    Semi,
    Minus,
    Plus,
    Slash,
    Star,
    FatArrow,
    Eq,
    EqEq,
    NotEq,
    Not,
    Or,
    And,
    Pound,
    Percent,
    Comma,
    Less,
    Greater,
    Dot,
    New,
    EOF,
    Unknown(char),
}

pub ghost enum StringPartView {
    String(Seq<char>),
    Formatted(Seq<Positioned<TokenView>>),
}

/// A token as a mathematical value.
pub ghost enum TokenView {
    Ident(Seq<char>),
    FormattedString(Seq<StringPartView>),
    String(Seq<char>),
    Float(DecimalView),
    Integer(i64),
    Boolean(bool),
    Record,
    Struct,
    Const,
    Let,
    While,
    For,
    In,
    If,
    Else,
    Func,
    Match,
    BracketOpen,
    BracketClose,
    BraceOpen,
    BraceClose,
    ParenOpen,
    ParenClose,
    Colon,
    Semi,
    Minus,
    Plus,
    Slash,
    Star,
    FatArrow,
    Eq,
    EqEq,
    NotEq,
    Not,
    Or,
    And,
    Pound,
    Percent,
    Comma,
    Less,
    Greater,
    Dot,
    New,
    EOF,
    Unknown(char),
}

impl StringPart {
    pub open spec fn model(&self) -> StringPartView
        decreases self,
    {
        match self {
            StringPart::String(text) => StringPartView::String(text@),
            StringPart::Formatted(tokens) => StringPartView::Formatted(
                Seq::new(
                    tokens.len() as nat,
                    |i: int|
                        if 0 <= i < tokens.len() {
                            Positioned { value: tokens[i].value.model(), span: tokens[i].span }
                        } else {
                            arbitrary()
                        },
                ),
            ),
        }
    }
}

impl Token {
    pub open spec fn model(&self) -> TokenView
        decreases self,
    {
        match self {
            Token::Ident(name) => TokenView::Ident(name@),
            Token::FormattedString(parts) => TokenView::FormattedString(
                Seq::new(
                    parts.len() as nat,
                    |i: int|
                        if 0 <= i < parts.len() {
                            parts[i].model()
                        } else {
                            arbitrary()
                        },
                ),
            ),
            Token::String(text) => TokenView::String(text@),
            Token::Float(value) => TokenView::Float(value@),
            Token::Integer(value) => TokenView::Integer(*value),
            Token::Boolean(value) => TokenView::Boolean(*value),
            Token::Record => TokenView::Record,
            Token::Struct => TokenView::Struct,
            Token::Const => TokenView::Const,
            Token::Let => TokenView::Let,
            Token::While => TokenView::While,
            Token::For => TokenView::For,
            Token::In => TokenView::In,
            Token::If => TokenView::If,
            Token::Else => TokenView::Else,
            Token::Func => TokenView::Func,
            Token::Match => TokenView::Match,
            Token::BracketOpen => TokenView::BracketOpen,
            Token::BracketClose => TokenView::BracketClose,
            Token::BraceOpen => TokenView::BraceOpen,
            Token::BraceClose => TokenView::BraceClose,
            Token::ParenOpen => TokenView::ParenOpen,
            Token::ParenClose => TokenView::ParenClose,
            Token::Colon => TokenView::Colon,
            Token::Semi => TokenView::Semi,
            Token::Minus => TokenView::Minus,
            Token::Plus => TokenView::Plus,
            Token::Slash => TokenView::Slash,
            Token::Star => TokenView::Star,
            Token::FatArrow => TokenView::FatArrow,
            Token::Eq => TokenView::Eq,
            Token::EqEq => TokenView::EqEq,
            Token::NotEq => TokenView::NotEq,
            Token::Not => TokenView::Not,
            Token::Or => TokenView::Or,
            Token::And => TokenView::And,
            Token::Pound => TokenView::Pound,
            Token::Percent => TokenView::Percent,
            Token::Comma => TokenView::Comma,
            Token::Less => TokenView::Less,
            Token::Greater => TokenView::Greater,
            Token::Dot => TokenView::Dot,
            Token::New => TokenView::New,
            Token::EOF => TokenView::EOF,
            Token::Unknown(character) => TokenView::Unknown(*character),
        }
    }
}

impl View for Token {
    type V = TokenView;

    open spec fn view(&self) -> TokenView {
        self.model()
    }
}

impl View for StringPart {
    type V = StringPartView;

    open spec fn view(&self) -> StringPartView {
        self.model()
    }
}

/// A token at its place.
pub open spec fn token_view(token: Positioned<Token>) -> Positioned<TokenView> {
    Positioned { value: token.value@, span: token.span }
}

/// The views of tokens, in order.
pub open spec fn tokens_view(tokens: Seq<Positioned<Token>>) -> Seq<Positioned<TokenView>> {
    Seq::new(tokens.len(), |i: int| token_view(tokens[i]))
}

/// The views of the pieces of a string, in order.
pub open spec fn parts_view(parts: Seq<StringPart>) -> Seq<StringPartView> {
    Seq::new(parts.len(), |i: int| parts[i]@)
}

pub proof fn lemma_token_view(token: Token)
    ensures
        token matches Token::FormattedString(parts) ==> token@ == TokenView::FormattedString(
            parts_view(parts@),
        ),
{
    match token {
        Token::FormattedString(parts) => {
            assert(token@->FormattedString_0 =~= parts_view(parts@));
        },
        _ => {},
    }
}

pub proof fn lemma_part_view(part: StringPart)
    ensures
        part matches StringPart::Formatted(tokens) ==> part@ == StringPartView::Formatted(
            tokens_view(tokens@),
        ),
{
    match part {
        StringPart::Formatted(tokens) => {
            assert(part@->Formatted_0 =~= tokens_view(tokens@));
        },
        _ => {},
    }
}

/// A copy of a list of tokens.
pub fn copy_tokens(tokens: &Vec<Positioned<Token>>) -> (copy: Vec<Positioned<Token>>)
    ensures
        tokens_view(copy@) == tokens_view(tokens@),
    decreases tokens, 0nat,
{
    let mut copy: Vec<Positioned<Token>> = Vec::new();
    let mut i: usize = 0;
    while i < tokens.len()
        invariant
            i <= tokens.len(),
            copy.len() == i,
            forall|j: int| 0 <= j < i ==> token_view(copy[j]) == token_view(tokens[j]),
        decreases tokens.len() - i,
    {
        copy.push(Positioned { value: tokens[i].value.clone(), span: tokens[i].span });
        i += 1;
    }
    assert(tokens_view(copy@) =~= tokens_view(tokens@));
    copy
}

/// A copy of the pieces of a string.
pub fn copy_parts(parts: &Vec<StringPart>) -> (copy: Vec<StringPart>)
    ensures
        parts_view(copy@) == parts_view(parts@),
    decreases parts, 1nat,
{
    let mut copy: Vec<StringPart> = Vec::new();
    let mut i: usize = 0;
    while i < parts.len()
        invariant
            i <= parts.len(),
            copy.len() == i,
            forall|j: int| 0 <= j < i ==> copy[j]@ == parts[j]@,
        decreases parts.len() - i,
    {
        let part = match &parts[i] {
            StringPart::String(text) => StringPart::String(text.clone()),
            StringPart::Formatted(tokens) => {
                let inner = StringPart::Formatted(copy_tokens(tokens));
                proof {
                    lemma_part_view(inner);
                    lemma_part_view(parts[i as int]);
                }
                inner
            },
        };
        copy.push(part);
        i += 1;
    }
    assert(parts_view(copy@) =~= parts_view(parts@));
    copy
}

/// Whether two lists of tokens are the same, spans included.
pub fn same_tokens(a: &Vec<Positioned<Token>>, b: &Vec<Positioned<Token>>) -> (same: bool)
    ensures
        same == (tokens_view(a@) == tokens_view(b@)),
    decreases a, 0nat,
{
    if a.len() != b.len() {
        assert(tokens_view(a@).len() != tokens_view(b@).len());
        return false;
    }
    let mut i: usize = 0;
    while i < a.len()
        invariant
            i <= a.len(),
            a.len() == b.len(),
            forall|j: int| 0 <= j < i ==> token_view(a[j]) == token_view(b[j]),
        decreases a.len() - i,
    {
        if a[i].span != b[i].span || !a[i].value.same(&b[i].value) {
            assert(tokens_view(a@)[i as int] != tokens_view(b@)[i as int]);
            return false;
        }
        i += 1;
    }
    assert(tokens_view(a@) =~= tokens_view(b@));
    true
}

/// Whether the pieces of two strings are the same.
pub fn same_parts(a: &Vec<StringPart>, b: &Vec<StringPart>) -> (same: bool)
    ensures
        same == (parts_view(a@) == parts_view(b@)),
    decreases a, 1nat,
{
    if a.len() != b.len() {
        assert(parts_view(a@).len() != parts_view(b@).len());
        return false;
    }
    let mut i: usize = 0;
    while i < a.len()
        invariant
            i <= a.len(),
            a.len() == b.len(),
            forall|j: int| 0 <= j < i ==> a[j]@ == b[j]@,
        decreases a.len() - i,
    {
        proof {
            lemma_part_view(a[i as int]);
            lemma_part_view(b[i as int]);
        }
        let equal = match (&a[i], &b[i]) {
            (StringPart::String(x), StringPart::String(y)) => *x == *y,
            (StringPart::Formatted(x), StringPart::Formatted(y)) => same_tokens(x, y),
            _ => false,
        };
        if !equal {
            assert(parts_view(a@)[i as int] != parts_view(b@)[i as int]);
            return false;
        }
        i += 1;
    }
    assert(parts_view(a@) =~= parts_view(b@));
    true
}

impl Clone for Token {
    fn clone(&self) -> (copy: Self)
        ensures
            copy@ == self@,
        decreases self, 2nat,
    {
        match self {
            Token::Ident(name) => Token::Ident(name.clone()),
            Token::FormattedString(parts) => {
                let copy = Token::FormattedString(copy_parts(parts));
                proof {
                    lemma_token_view(copy);
                    lemma_token_view(*self);
                }
                copy
            },
            Token::String(text) => Token::String(text.clone()),
            Token::Float(value) => Token::Float(value.clone()),
            Token::Integer(value) => Token::Integer(*value),
            Token::Boolean(value) => Token::Boolean(*value),
            Token::Record => Token::Record,
            Token::Struct => Token::Struct,
            Token::Const => Token::Const,
            Token::Let => Token::Let,
            Token::While => Token::While,
            Token::For => Token::For,
            Token::In => Token::In,
            Token::If => Token::If,
            Token::Else => Token::Else,
            Token::Func => Token::Func,
            Token::Match => Token::Match,
            Token::BracketOpen => Token::BracketOpen,
            Token::BracketClose => Token::BracketClose,
            Token::BraceOpen => Token::BraceOpen,
            Token::BraceClose => Token::BraceClose,
            Token::ParenOpen => Token::ParenOpen,
            Token::ParenClose => Token::ParenClose,
            Token::Colon => Token::Colon,
            Token::Semi => Token::Semi,
            Token::Minus => Token::Minus,
            Token::Plus => Token::Plus,
            Token::Slash => Token::Slash,
            Token::Star => Token::Star,
            Token::FatArrow => Token::FatArrow,
            Token::Eq => Token::Eq,
            Token::EqEq => Token::EqEq,
            Token::NotEq => Token::NotEq,
            Token::Not => Token::Not,
            Token::Or => Token::Or,
            Token::And => Token::And,
            Token::Pound => Token::Pound,
            Token::Percent => Token::Percent,
            Token::Comma => Token::Comma,
            Token::Less => Token::Less,
            Token::Greater => Token::Greater,
            Token::Dot => Token::Dot,
            Token::New => Token::New,
            Token::EOF => Token::EOF,
            Token::Unknown(character) => Token::Unknown(*character),
        }
    }
}

impl Clone for StringPart {
    fn clone(&self) -> (copy: Self)
        ensures
            copy@ == self@,
    {
        match self {
            StringPart::String(text) => StringPart::String(text.clone()),
            StringPart::Formatted(tokens) => {
                let copy = StringPart::Formatted(copy_tokens(tokens));
                proof {
                    lemma_part_view(copy);
                    lemma_part_view(*self);
                }
                copy
            },
        }
    }
}

impl Token {
    /// Whether two tokens are the same.
    pub fn same(&self, other: &Self) -> (same: bool)
        ensures
            same == (self@ == other@),
        decreases self, 2nat,
    {
        proof {
            lemma_token_view(*self);
            lemma_token_view(*other);
        }
        match (self, other) {
            (Token::Ident(a), Token::Ident(b)) => *a == *b,
            (Token::FormattedString(a), Token::FormattedString(b)) => same_parts(a, b),
            (Token::String(a), Token::String(b)) => *a == *b,
            (Token::Float(a), Token::Float(b)) => a.same(b),
            (Token::Integer(a), Token::Integer(b)) => *a == *b,
            (Token::Boolean(a), Token::Boolean(b)) => *a == *b,
            (Token::Unknown(a), Token::Unknown(b)) => *a == *b,
            (Token::Record, Token::Record) => true,
            (Token::Struct, Token::Struct) => true,
            (Token::Const, Token::Const) => true,
            (Token::Let, Token::Let) => true,
            (Token::While, Token::While) => true,
            (Token::For, Token::For) => true,
            (Token::In, Token::In) => true,
            (Token::If, Token::If) => true,
            (Token::Else, Token::Else) => true,
            (Token::Func, Token::Func) => true,
            (Token::Match, Token::Match) => true,
            (Token::BracketOpen, Token::BracketOpen) => true,
            (Token::BracketClose, Token::BracketClose) => true,
            (Token::BraceOpen, Token::BraceOpen) => true,
            (Token::BraceClose, Token::BraceClose) => true,
            (Token::ParenOpen, Token::ParenOpen) => true,
            (Token::ParenClose, Token::ParenClose) => true,
            (Token::Colon, Token::Colon) => true,
            (Token::Semi, Token::Semi) => true,
            (Token::Minus, Token::Minus) => true,
            (Token::Plus, Token::Plus) => true,
            (Token::Slash, Token::Slash) => true,
            (Token::Star, Token::Star) => true,
            (Token::FatArrow, Token::FatArrow) => true,
            (Token::Eq, Token::Eq) => true,
            (Token::EqEq, Token::EqEq) => true,
            (Token::NotEq, Token::NotEq) => true,
            (Token::Not, Token::Not) => true,
            (Token::Or, Token::Or) => true,
            (Token::And, Token::And) => true,
            (Token::Pound, Token::Pound) => true,
            (Token::Percent, Token::Percent) => true,
            (Token::Comma, Token::Comma) => true,
            (Token::Less, Token::Less) => true,
            (Token::Greater, Token::Greater) => true,
            (Token::Dot, Token::Dot) => true,
            (Token::New, Token::New) => true,
            (Token::EOF, Token::EOF) => true,
            _ => false,
        }
    }

    #[must_use]
    pub fn is_ident(&self) -> (holds: bool)
        ensures
            holds == (self@ is Ident),
    {
        matches!(self, Token::Ident(_))
    }

    #[must_use]
    pub fn is_formatted_string(&self) -> (holds: bool)
        ensures
            holds == (self@ is FormattedString),
    {
        matches!(self, Token::FormattedString(_))
    }

    #[must_use]
    pub fn is_string(&self) -> (holds: bool)
        ensures
            holds == (self@ is String),
    {
        matches!(self, Token::String(_))
    }

    #[must_use]
    pub fn is_float(&self) -> (holds: bool)
        ensures
            holds == (self@ is Float),
    {
        matches!(self, Token::Float(_))
    }

    #[must_use]
    pub fn is_integer(&self) -> (holds: bool)
        ensures
            holds == (self@ is Integer),
    {
        matches!(self, Token::Integer(_))
    }

    #[must_use]
    pub fn is_boolean(&self) -> (holds: bool)
        ensures
            holds == (self@ is Boolean),
    {
        matches!(self, Token::Boolean(_))
    }

    /// Whether the token is a name of which `func` holds.
    #[must_use]
    pub fn is_ident_and<F: FnOnce(&String) -> bool>(&self, func: F) -> (holds: bool)
        requires
            self matches Token::Ident(name) ==> func.requires((&name,)),
        ensures
            match self {
                Token::Ident(name) => func.ensures((&name,), holds),
                _ => !holds,
            },
    {
        if let Token::Ident(value) = self {
            func(value)
        } else {
            false
        }
    }

    #[must_use]
    pub fn is_number(&self) -> (holds: bool)
        ensures
            holds == (self@ is Float || self@ is Integer),
    {
        self.is_float() || self.is_integer()
    }

    /// Whether the token is an integer that is not negative and that the
    /// machine can count up to.
    pub open spec fn spec_is_usize(token: TokenView) -> bool {
        token matches TokenView::Integer(value) && 0 <= value <= usize::MAX
    }

    #[must_use]
    pub fn is_usize(&self) -> (holds: bool)
        ensures
            holds == Self::spec_is_usize(self@),
    {
        if let Token::Integer(value) = self {
            *value >= 0 && (usize::BITS >= 64 || *value <= usize::MAX as i64)
        } else {
            false
        }
    }

    /// The number that the token stands for.
    #[must_use]
    pub fn into_usize(self) -> (number: usize)
        requires
            Self::spec_is_usize(self@),
        ensures
            self@ == TokenView::Integer(number as i64),
            number <= i64::MAX,
    {
        match self {
            Token::Integer(value) => value as usize,
            _ => 0,
        }
    }
}

} // verus!
