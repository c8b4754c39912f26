//! The lexer.

use crate::lexer::chars::{next_char, open_chars, peek_char, pending_chars};
use crate::lexer::rules::{
    advanced, bytes, digits_value, in_run, interleaved, is_digit, is_letter, is_whitespace, lex,
    lexed, number, other, reserved, run, shifted, step, utf8_len, Run, StringScan,
};
use crate::lexer::token::{
    lemma_part_view, lemma_token_view, parts_view, tokens_view, StringPart, StringPartView, Token,
    TokenView,
};
use crate::shared::{Decimal, Positioned, Span};
use crate::text::same_text;
use peekmore::PeekMoreIterator;
use std::str::Chars;
use vstd::prelude::*;

verus! {

pub fn letter(c: char) -> (holds: bool)
    ensures
        holds == is_letter(c),
{
    let code = c as u32;
    (code >= 'a' as u32 && code <= 'z' as u32) || (code >= 'A' as u32 && code <= 'Z' as u32)
}

pub fn digit(c: char) -> (holds: bool)
    ensures
        holds == is_digit(c),
{
    let code = c as u32;
    code >= '0' as u32 && code <= '9' as u32
}

pub fn whitespace(c: char) -> (holds: bool)
    ensures
        holds == is_whitespace(c),
{
    c == ' ' || c == '\t' || c == '\n' || c == '\x0C' || c == '\r'
}

/// The number of bytes that a character takes in UTF-8.
pub fn len_utf8(c: char) -> (count: usize)
    ensures
        count == utf8_len(c),
{
    let code = c as u32;
    if code < 0x80 {
        1
    } else if code < 0x800 {
        2
    } else if code < 0x10000 {
        3
    } else {
        4
    }
}

/// Whether there is a character and it belongs to a run.
fn continues(kind: Run, c: Option<char>) -> (holds: bool)
    ensures
        holds == (c matches Some(found) && in_run(kind, found)),
{
    match c {
        Some(found) => match kind {
            Run::Ident => letter(found) || digit(found) || found == '-' || found == '_',
            Run::Digits => digit(found),
            Run::Plain => found != '{' && found != '}',
        },
        None => false,
    }
}

/// The texts of strings, in order.
pub open spec fn texts(strings: Seq<String>) -> Seq<Seq<char>> {
    Seq::new(strings.len(), |i: int| strings[i]@)
}

/// Reads a run from the stream and appends it to `text`. Returns how many
/// characters and how many bytes it read.
#[verifier::rlimit(40)]
fn take_run(chars: &mut PeekMoreIterator<Chars<'_>>, kind: Run, text: &mut String) -> (read: (
    usize,
    usize,
))
    requires
        pending_chars(*old(chars)).len() <= usize::MAX,
    ensures
        read.0 == run(kind, pending_chars(*old(chars))),
        read.0 <= pending_chars(*old(chars)).len(),
        read.1 == bytes(pending_chars(*old(chars)).take(read.0 as int)),
        pending_chars(*final(chars)) == pending_chars(*old(chars)).skip(read.0 as int),
        final(text)@ == old(text)@ + pending_chars(*old(chars)).take(read.0 as int),
{
    let ghost start = pending_chars(*chars);
    let mut count: usize = 0;
    let mut size: usize = 0;
    let mut ahead = peek_char(chars, 0);
    proof {
        assert(start.skip(0) =~= start);
        assert(text@ =~= old(text)@ + start.take(0));
        assert(start.take(0) =~= Seq::<char>::empty());
    }
    while continues(kind, ahead)
        invariant
            start.len() <= usize::MAX,
            count <= start.len(),
            pending_chars(*chars) == start.skip(count as int),
            text@ == old(text)@ + start.take(count as int),
            run(kind, start) == count + run(kind, pending_chars(*chars)),
            size == bytes(start.take(count as int)),
            ahead == (if pending_chars(*chars).len() > 0 {
                Some(pending_chars(*chars)[0])
            } else {
                None::<char>
            }),
        decreases pending_chars(*chars).len(),
    {
        let c = ahead.unwrap();
        next_char(chars);
        text.push(c);
        size = size.wrapping_add(len_utf8(c));
        count = count + 1;
        proof {
            assert(pending_chars(*chars) =~= start.skip(count as int));
            assert(start.take(count as int) =~= start.take(count - 1).push(c));
            assert(start.take(count as int).drop_last() =~= start.take(count - 1));
            assert(text@ =~= old(text)@ + start.take(count as int));
        }
        ahead = peek_char(chars, 0);
    }
    (count, size)
}

/// The number that the digits of `text` stand for, where it is not beyond the
/// largest unsigned one.
fn decimal_value(text: &str) -> (value: Option<u128>)
    requires
        forall|i: int| 0 <= i < text@.len() ==> is_digit(#[trigger] text@[i]),
    ensures
        match value {
            Some(found) => found == digits_value(text@),
            None => digits_value(text@) > u128::MAX,
        },
{
    let count = text.unicode_len();
    let mut value: u128 = 0;
    let mut i: usize = 0;
    proof {
        assert(text@.take(0) =~= Seq::<char>::empty());
    }
    while i < count
        invariant
            i <= count,
            count == text@.len(),
            forall|k: int| 0 <= k < text@.len() ==> is_digit(#[trigger] text@[k]),
            value == digits_value(text@.take(i as int)),
        decreases count - i,
    {
        let c = text.get_char(i);
        let d: u128 = (c as u32 - '0' as u32) as u128;
        proof {
            assert(text@.take(i + 1).drop_last() =~= text@.take(i as int));
            assert(text@.take(i + 1).last() == c);
        }
        if value > (u128::MAX - d) / 10 {
            proof {
                lemma_digits_grow(text@, i + 1);
            }
            return None;
        }
        value = value * 10 + d;
        i += 1;
    }
    proof {
        assert(text@.take(count as int) =~= text@);
    }
    Some(value)
}

/// The number that digits stand for is at least the number that fewer of them
/// stand for.
proof fn lemma_digits_grow(digits: Seq<char>, shorter: int)
    requires
        0 <= shorter <= digits.len(),
        forall|k: int| 0 <= k < digits.len() ==> is_digit(#[trigger] digits[k]),
    ensures
        digits_value(digits.take(shorter)) <= digits_value(digits),
    decreases digits.len() - shorter,
{
    if shorter < digits.len() {
        lemma_digits_grow(digits, shorter + 1);
        assert(digits.take(shorter + 1).drop_last() =~= digits.take(shorter));
    } else {
        assert(digits.take(shorter) =~= digits);
    }
}

/// Turns text into tokens.
pub struct Lexer;

impl Lexer {
    /// The token for a word: a keyword, or a name.
    fn parse_reserved(ident: String) -> (token: Token)
        ensures
            token@ == reserved(ident@),
    {
        let word = ident.as_str();
        if same_text(word, "true") {
            Token::Boolean(true)
        } else if same_text(word, "false") {
            Token::Boolean(false)
        } else if same_text(word, "record") {
            Token::Record
        } else if same_text(word, "new") {
            Token::New
        } else if same_text(word, "struct") {
            Token::Struct
        } else if same_text(word, "match") {
            Token::Match
        } else if same_text(word, "func") {
            Token::Func
        } else if same_text(word, "const") {
            Token::Const
        } else if same_text(word, "let") {
            Token::Let
        } else if same_text(word, "while") {
            Token::While
        } else if same_text(word, "for") {
            Token::For
        } else if same_text(word, "in") {
            Token::In
        } else if same_text(word, "if") {
            Token::If
        } else if same_text(word, "else") {
            Token::Else
        } else {
            Token::Ident(ident)
        }
    }

    /// Takes the next character from the stream where it is `wanted`.
    fn follows(chars: &mut PeekMoreIterator<Chars<'_>>, wanted: char) -> (taken: bool)
        ensures
            taken == (pending_chars(*old(chars)).len() > 0 && pending_chars(*old(chars))[0]
                == wanted),
            pending_chars(*final(chars)) == if taken {
                pending_chars(*old(chars)).drop_first()
            } else {
                pending_chars(*old(chars))
            },
    {
        match peek_char(chars, 0) {
            Some(found) => {
                if found == wanted {
                    next_char(chars);
                    true
                } else {
                    false
                }
            },
            None => false,
        }
    }

    /// The token that starts with `character`, which is punctuation or an
    /// operator. Where the token takes a second character, the span grows by
    /// it.
    fn parse_other(chars: &mut PeekMoreIterator<Chars<'_>>, span: &mut Span, character: char) -> (token:
        Token)
        ensures
            token@ == other(character, pending_chars(*old(chars))).0,
            pending_chars(*final(chars)) == if other(character, pending_chars(*old(chars))).1 {
                pending_chars(*old(chars)).drop_first()
            } else {
                pending_chars(*old(chars))
            },
            *final(span) == if other(character, pending_chars(*old(chars))).1 {
                shifted(Span { end: old(span).end.wrapping_add(1), ..*old(span) }, 1)
            } else {
                *old(span)
            },
    {
        if character == '[' {
            Token::BracketOpen
        } else if character == ']' {
            Token::BracketClose
        } else if character == '{' {
            Token::BraceOpen
        } else if character == '}' {
            Token::BraceClose
        } else if character == '(' {
            Token::ParenOpen
        } else if character == ')' {
            Token::ParenClose
        } else if character == '!' {
            if Self::follows(chars, '=') {
                span.end = span.end.wrapping_add(1);
                span.column = span.column.wrapping_add(1);
                Token::NotEq
            } else {
                Token::Not
            }
        } else if character == '=' {
            if Self::follows(chars, '=') {
                span.end = span.end.wrapping_add(1);
                span.column = span.column.wrapping_add(1);
                Token::EqEq
            } else if Self::follows(chars, '>') {
                span.end = span.end.wrapping_add(1);
                span.column = span.column.wrapping_add(1);
                Token::FatArrow
            } else {
                Token::Eq
            }
        } else if character == ':' {
            Token::Colon
        } else if character == ';' {
            Token::Semi
        } else if character == '+' {
            Token::Plus
        } else if character == '*' {
            Token::Star
        } else if character == '/' {
            Token::Slash
        } else if character == '%' {
            Token::Percent
        } else if character == '.' {
            Token::Dot
        } else if character == ',' {
            Token::Comma
        } else if character == '#' {
            Token::Pound
        } else if character == '>' {
            Token::Greater
        } else if character == '<' {
            Token::Less
        } else if character == '&' && Self::follows(chars, '&') {
            span.end = span.end.wrapping_add(1);
            span.column = span.column.wrapping_add(1);
            Token::And
        } else if character == '|' && Self::follows(chars, '|') {
            span.end = span.end.wrapping_add(1);
            span.column = span.column.wrapping_add(1);
            Token::Or
        } else {
            Token::Unknown(character)
        }
    }

    /// Reads a number whose first digit, `character`, is read already, and
    /// appends its token. Returns whether there is a token for the number.
    #[verifier::rlimit(40)]
    fn parse_number(
        chars: &mut PeekMoreIterator<Chars<'_>>,
        tokens: &mut Vec<Positioned<Token>>,
        span: &mut Span,
        character: char,
        neg: bool,
    ) -> (read: bool)
        requires
            is_digit(character),
            pending_chars(*old(chars)).len() < usize::MAX,
        ensures
            match number(character, pending_chars(*old(chars)), neg) {
                None => !read,
                Some(found) => {
                    &&& read
                    &&& pending_chars(*final(chars)) == pending_chars(*old(chars)).skip(
                        found.taken as int,
                    )
                    &&& tokens_view(final(tokens)@) == tokens_view(old(tokens)@).push(
                        Positioned {
                            value: found.token,
                            span: advanced(*old(span), found.length as usize),
                        },
                    )
                    &&& *final(span) == shifted(
                        advanced(*old(span), found.length as usize),
                        found.length as usize,
                    )
                    &&& found.taken <= pending_chars(*old(chars)).len()
                },
            },
    {
        let ghost rest = pending_chars(*chars);
        let mut digits = String::new();
        digits.push(character);
        let (whole, _) = take_run(chars, Run::Digits, &mut digits);
        let ghost behind = rest.skip(whole as int);
        let mut length: usize = whole + 1;
        let dot = peek_char(chars, 0);
        let after = peek_char(chars, 1);
        let float = match (dot, after) {
            (Some(point), Some(next)) => point == '.' && digit(next),
            _ => false,
        };
        assert(float == (behind.len() >= 2 && behind[0] == '.' && is_digit(behind[1])));
        let mut scale: usize = 0;
        if float {
            next_char(chars);
            let (fraction, _) = take_run(chars, Run::Digits, &mut digits);
            scale = fraction;
            length = length + 1 + fraction;
            proof {
                assert(behind.drop_first() =~= behind.skip(1));
                assert(pending_chars(*chars) =~= rest.skip(whole + 1 + fraction));
                assert(digits@ =~= seq![character] + rest.take(whole as int) + behind.skip(1).take(
                    fraction as int,
                ));
            }
        } else {
            proof {
                assert(digits@ =~= seq![character] + rest.take(whole as int));
            }
        }
        proof {
            lemma_run_holds(Run::Digits, rest, whole as int);
            if float {
                lemma_run_holds(Run::Digits, behind.skip(1), scale as int);
            }
            assert forall|i: int| 0 <= i < digits@.len() implies is_digit(
                #[trigger] digits@[i],
            ) by {
                if i == 0 {
                } else if i <= whole {
                    assert(digits@[i] == rest.take(whole as int)[i - 1]);
                } else {
                    assert(digits@[i] == behind.skip(1).take(scale as int)[i - 1 - whole]);
                }
            }
        }
        let token = if float {
            Token::Float(Decimal { negative: neg, digits, scale })
        } else {
            let value = match decimal_value(digits.as_str()) {
                Some(value) => value,
                None => {
                    assert(digits_value(digits@) > i64::MAX);
                    return false;
                },
            };
            if value > i64::MAX as u128 {
                return false;
            }
            if neg {
                Token::Integer(-(value as i64))
            } else {
                Token::Integer(value as i64)
            }
        };
        span.start = span.end;
        span.end = span.end.wrapping_add(length);
        let ghost before = tokens_view(tokens@);
        tokens.push(span.wrap(token));
        span.column = span.column.wrapping_add(length);
        proof {
            assert(tokens_view(tokens@) =~= before.push(
                Positioned { value: token@, span: advanced(*old(span), length) },
            ));
        }
        true
    }

    /// Reads a string whose opening quote is read already, up to the quote
    /// that ends it. Returns the token and how many characters and bytes were
    /// read, the quote at the end left out; or nothing, where an interpolation
    /// holds an integer that has no token.
    #[verifier::rlimit(40)]
    fn parse_string(chars: &mut PeekMoreIterator<Chars<'_>>) -> (read: Option<(Token, usize, usize)>)
        requires
            pending_chars(*old(chars)).len() < usize::MAX,
        ensures
            ({
                let scanned = StringScan::start(pending_chars(*old(chars))).scan();
                let plain = scanned.datas.len() == 0 && scanned.formatted.len() == 0;
                let parts = interleaved(
                    scanned.datas,
                    scanned.formatted,
                    0,
                    pending_chars(*old(chars)).len() + 1,
                    Seq::empty(),
                );
                &&& read is Some ==> pending_chars(*final(chars)) == if scanned.rest.len() > 0
                    && scanned.rest[0] == '"' {
                    scanned.rest.drop_first()
                } else {
                    scanned.rest
                }
                &&& read is Some ==> pending_chars(*final(chars)).len() <= pending_chars(
                    *old(chars),
                ).len()
                &&& read matches Some(found) ==> found.1 == scanned.size && found.2
                    == scanned.utf8size
                &&& plain ==> (read matches Some(found) && found.0@ == TokenView::String(
                    scanned.data,
                ))
                &&& !plain ==> match parts {
                    None => read is None,
                    Some(pieces) => read matches Some(found) && found.0@
                        == TokenView::FormattedString(
                        pieces.push(StringPartView::String(scanned.data)),
                    ),
                }
            }),
        decreases pending_chars(*old(chars)).len() + 1, 0nat,
    {
        let ghost start = pending_chars(*chars);
        let mut size: usize = 0;
        let mut utf8size: usize = 0;
        let mut data = String::new();
        let mut datas: Vec<String> = Vec::new();
        let mut formatted: Vec<String> = Vec::new();
        let mut ahead = peek_char(chars, 0);
        proof {
            assert(texts(datas@) =~= Seq::<Seq<char>>::empty());
            assert(texts(formatted@) =~= Seq::<Seq<char>>::empty());
        }
        while ahead.is_some() && ahead != Some('"')
            invariant
                start == pending_chars(*old(chars)),
                start.len() < usize::MAX,
                pending_chars(*chars).len() <= start.len(),
                datas.len() == formatted.len(),
                forall|k: int|
                    0 <= k < formatted.len() ==> (#[trigger] formatted[k])@.len()
                        + pending_chars(*chars).len() <= start.len(),
                StringScan::start(start).scan() == (StringScan {
                    rest: pending_chars(*chars),
                    size,
                    utf8size,
                    data: data@,
                    datas: texts(datas@),
                    formatted: texts(formatted@),
                }).scan(),
                ahead == (if pending_chars(*chars).len() > 0 {
                    Some(pending_chars(*chars)[0])
                } else {
                    None::<char>
                }),
            decreases pending_chars(*chars).len(),
        {
            let ghost before = StringScan {
                rest: pending_chars(*chars),
                size,
                utf8size,
                data: data@,
                datas: texts(datas@),
                formatted: texts(formatted@),
            };
            let character = ahead.unwrap();
            next_char(chars);
            size = size.wrapping_add(1);
            utf8size = utf8size.wrapping_add(len_utf8(character));
            if character == '\\' {
                if let Some(escaped) = next_char(chars) {
                    size = size.wrapping_add(1);
                    utf8size = utf8size.wrapping_add(len_utf8(escaped));
                    data.push(escaped);
                }
            }
            if character == '{' {
                let ghost opened = pending_chars(*chars);
                datas.push(data);
                data = String::new();
                let mut piece = String::new();
                let (count, width) = take_run(chars, Run::Plain, &mut piece);
                proof {
                    assert(piece@ =~= opened.take(count as int));
                }
                formatted.push(piece);
                size = size.wrapping_add(count);
                utf8size = utf8size.wrapping_add(width);
                size = size.wrapping_add(1);
                utf8size = utf8size.wrapping_add(1);
                Self::follows(chars, '}');
                proof {
                    assert(texts(datas@) =~= before.datas.push(before.data));
                    assert(texts(formatted@) =~= before.formatted.push(opened.take(count as int)));
                }
            } else {
                data.push(character);
            }
            ahead = peek_char(chars, 0);
        }
        let ghost scanned = StringScan::start(start).scan();
        proof {
            assert(scanned == (StringScan {
                rest: pending_chars(*chars),
                size,
                utf8size,
                data: data@,
                datas: texts(datas@),
                formatted: texts(formatted@),
            }));
        }
        Self::follows(chars, '"');
        if datas.len() == 0 && formatted.len() == 0 {
            return Some((Token::String(data), size, utf8size));
        }
        let mut parts: Vec<StringPart> = Vec::new();
        let mut k: usize = 0;
        proof {
            assert(parts_view(parts@) =~= Seq::<StringPartView>::empty());
        }
        while k < datas.len()
            invariant
                k <= datas.len(),
                start == pending_chars(*old(chars)),
                datas.len() == formatted.len(),
                datas.len() > 0,
                scanned == StringScan::start(start).scan(),
                scanned.datas == texts(datas@),
                scanned.formatted == texts(formatted@),
                forall|i: int|
                    0 <= i < formatted.len() ==> (#[trigger] formatted[i])@.len() <= start.len(),
                interleaved(
                    texts(datas@),
                    texts(formatted@),
                    0,
                    start.len() + 1,
                    Seq::empty(),
                ) == interleaved(
                    texts(datas@),
                    texts(formatted@),
                    k as int,
                    start.len() + 1,
                    parts_view(parts@),
                ),
            decreases datas.len() - k,
        {
            assert(formatted[k as int]@.len() <= start.len());
            let tokens = match Self::try_parse(formatted[k].as_str()) {
                Some(tokens) => tokens,
                None => {
                    return None;
                },
            };
            let ghost earlier = parts_view(parts@);
            let inner = StringPart::Formatted(tokens);
            proof {
                lemma_part_view(inner);
            }
            parts.push(StringPart::String(datas[k].clone()));
            parts.push(inner);
            proof {
                assert(parts_view(parts@) =~= earlier.push(
                    StringPartView::String(texts(datas@)[k as int]),
                ).push(StringPartView::Formatted(tokens_view(tokens@))));
            }
            k += 1;
        }
        let ghost pieces = parts_view(parts@);
        parts.push(StringPart::String(data));
        let token = Token::FormattedString(parts);
        proof {
            lemma_token_view(token);
            assert(parts_view(parts@) =~= pieces.push(StringPartView::String(data@)));
        }
        Some((token, size, utf8size))
    }

    /// Reads the token that starts with `character`, which is read already,
    /// and appends it, unless it is whitespace. Returns whether there is a
    /// token for what it read.
    #[verifier::rlimit(40)]
    fn scan_token(
        chars: &mut PeekMoreIterator<Chars<'_>>,
        tokens: &mut Vec<Positioned<Token>>,
        span: &mut Span,
        character: char,
    ) -> (read: bool)
        requires
            pending_chars(*old(chars)).len() < usize::MAX,
        ensures
            match step(seq![character] + pending_chars(*old(chars)), *old(span)) {
                None => !read,
                Some(found) => {
                    &&& read
                    &&& pending_chars(*final(chars)) == found.rest
                    &&& *final(span) == found.span
                    &&& tokens_view(final(tokens)@) == match found.token {
                        Some(token) => tokens_view(old(tokens)@).push(token),
                        None => tokens_view(old(tokens)@),
                    }
                    &&& found.rest.len() <= pending_chars(*old(chars)).len()
                },
            },
        decreases pending_chars(*old(chars)).len() + 1, 1nat,
    {
        let ghost behind = pending_chars(*chars);
        let ghost rest = seq![character] + behind;
        let ghost before = tokens_view(tokens@);
        proof {
            assert(rest.drop_first() =~= behind);
            assert(rest[0] == character);
        }
        if letter(character) {
            let mut ident = String::new();
            ident.push(character);
            let (count, _) = take_run(chars, Run::Ident, &mut ident);
            let length = count + 1;
            span.start = span.end;
            span.end = span.end.wrapping_add(length);
            span.column = span.column.wrapping_add(length);
            proof {
                assert(ident@ =~= rest.take(count + 1));
            }
            tokens.push(span.wrap(Self::parse_reserved(ident)));
            proof {
                assert(tokens_view(tokens@) =~= before.push(
                    Positioned { value: reserved(rest.take(count + 1)), span: *span },
                ));
            }
            true
        } else if digit(character) {
            Self::parse_number(chars, tokens, span, character, false)
        } else if character == '-' {
            let next = peek_char(chars, 0);
            let negative = match next {
                Some(found) => digit(found),
                None => false,
            };
            if negative {
                let first = next_char(chars).unwrap();
                if !Self::parse_number(chars, tokens, span, first, true) {
                    return false;
                }
                proof {
                    assert(behind.drop_first().skip(
                        number(first, behind.drop_first(), true).unwrap().taken as int,
                    ) =~= pending_chars(*chars));
                }
                true
            } else {
                span.start = span.end;
                span.end = span.end.wrapping_add(1);
                tokens.push(span.wrap(Token::Minus));
                proof {
                    assert(tokens_view(tokens@) =~= before.push(
                        Positioned { value: TokenView::Minus, span: *span },
                    ));
                }
                span.column = span.column.wrapping_add(1);
                true
            }
        } else if character == '"' {
            span.start = span.end;
            span.end = span.end.wrapping_add(1);
            span.column = span.column.wrapping_add(1);
            let (value, size, utf8size) = match Self::parse_string(chars) {
                Some(read) => read,
                None => {
                    return false;
                },
            };
            span.start = span.end;
            span.end = span.end.wrapping_add(utf8size.wrapping_add(1));
            span.column = span.column.wrapping_add(size.wrapping_add(1));
            tokens.push(span.wrap(value));
            proof {
                assert(tokens_view(tokens@) =~= before.push(
                    Positioned { value: value@, span: *span },
                ));
            }
            true
        } else {
            span.start = span.end;
            span.end = span.end.wrapping_add(1);
            if whitespace(character) {
                if character == '\n' {
                    span.line = span.line.wrapping_add(1);
                    span.column = 0;
                } else {
                    span.column = span.column.wrapping_add(1);
                }
            } else {
                let at = *span;
                let token = Self::parse_other(chars, span, character);
                tokens.push(at.wrap(token));
                proof {
                    assert(tokens_view(tokens@) =~= before.push(
                        Positioned { value: token@, span: at },
                    ));
                }
                span.column = span.column.wrapping_add(1);
            }
            true
        }
    }

    /// The tokens of a text, the token for the end behind them; or nothing,
    /// where the text holds an integer that has no token.
    #[verifier::rlimit(40)]
    pub fn try_parse(data: &str) -> (tokens: Option<Vec<Positioned<Token>>>)
        ensures
            match lexed(data@) {
                Some(expected) => tokens matches Some(found) && tokens_view(found@) == expected,
                None => tokens is None,
            },
        decreases data@.len(), 2nat,
    {
        let total = data.unicode_len();
        let mut tokens: Vec<Positioned<Token>> = Vec::new();
        let mut chars = open_chars(data);
        let mut span = Span::new(0, 0, 0, 0);
        let mut current = next_char(&mut chars);
        proof {
            assert(tokens_view(tokens@) =~= Seq::<Positioned<TokenView>>::empty());
            if current is Some {
                assert(seq![current.unwrap()] + pending_chars(chars) =~= data@);
            }
        }
        while current.is_some()
            invariant
                total == data@.len(),
                current is None ==> pending_chars(chars).len() == 0,
                current is Some ==> pending_chars(chars).len() < data@.len(),
                lexed(data@) == lex(
                    match current {
                        Some(character) => seq![character] + pending_chars(chars),
                        None => pending_chars(chars),
                    },
                    span,
                    tokens_view(tokens@),
                ),
            decreases
                    (match current {
                        Some(_) => pending_chars(chars).len() + 1,
                        None => 0,
                    }),
        {
            let character = current.unwrap();
            let ghost rest = seq![character] + pending_chars(chars);
            let ghost from = span;
            if !Self::scan_token(&mut chars, &mut tokens, &mut span, character) {
                return None;
            }
            current = next_char(&mut chars);
            proof {
                if current is Some {
                    assert(seq![current.unwrap()] + pending_chars(chars) =~= step(
                        rest,
                        from,
                    ).unwrap().rest);
                }
            }
        }
        let ghost before = tokens_view(tokens@);
        tokens.push(span.wrap(Token::EOF));
        proof {
            assert(tokens_view(tokens@) =~= before.push(
                Positioned { value: TokenView::EOF, span },
            ));
        }
        Some(tokens)
    }

    /// The tokens of a text in which every integer has a token.
    pub fn parse(data: &str) -> (tokens: Vec<Positioned<Token>>)
        requires
            lexed(data@) is Some,
        ensures
            Some(tokens_view(tokens@)) == lexed(data@),
    {
        match Self::try_parse(data) {
            Some(tokens) => tokens,
            None => Vec::new(),
        }
    }
}

/// The first characters of a text, as many as its run is long, all belong to
/// the run.
pub proof fn lemma_run_holds(kind: Run, rest: Seq<char>, count: int)
    requires
        0 <= count <= run(kind, rest),
    ensures
        count <= rest.len(),
        forall|i: int| 0 <= i < count ==> in_run(kind, #[trigger] rest.take(count)[i]),
    decreases count,
{
    if count > 0 {
        lemma_run_holds(kind, rest.drop_first(), count - 1);
        assert forall|i: int| 0 <= i < count implies in_run(
            kind,
            #[trigger] rest.take(count)[i],
        ) by {
            if i > 0 {
                assert(rest.take(count)[i] == rest.drop_first().take(count - 1)[i - 1]);
            }
        }
    }
}

} // verus!
