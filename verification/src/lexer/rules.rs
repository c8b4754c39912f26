//! The rules of the lexer, as functions on sequences of characters.
//!
//! A rule that goes on with what another rule left over does so where that is
//! less than what it started with. It always is, since every token is at least
//! one character; said in the rule, this is what makes the rules end.

use crate::lexer::token::{StringPartView, TokenView};
use crate::shared::{DecimalView, Positioned, Span};
use vstd::prelude::*;

verus! {

/// A letter of the English alphabet.
pub open spec fn is_letter(c: char) -> bool {
    ('a' as u32 <= c as u32 && c as u32 <= 'z' as u32) || ('A' as u32 <= c as u32 && c as u32
        <= 'Z' as u32)
}

pub open spec fn is_digit(c: char) -> bool {
    '0' as u32 <= c as u32 && c as u32 <= '9' as u32
}

/// What a name may hold behind its first letter.
pub open spec fn is_ident_part(c: char) -> bool {
    is_letter(c) || is_digit(c) || c == '-' || c == '_'
}

/// Space, tab, line feed, form feed and carriage return.
pub open spec fn is_whitespace(c: char) -> bool {
    c == ' ' || c == '\t' || c == '\n' || c == '\x0C' || c == '\r'
}

/// The number of bytes that a character takes in UTF-8.
pub open spec fn utf8_len(c: char) -> usize {
    if (c as u32) < 0x80 {
        1
    } else if (c as u32) < 0x800 {
        2
    } else if (c as u32) < 0x10000 {
        3
    } else {
        4
    }
}

/// What the lexer reads in one go.
#[derive(Debug, Clone, Copy, PartialEq, Eq, Structural)]
pub enum Run {
    /// What may stand in a name behind its first letter.
    Ident,
    Digits,
    /// Anything but a brace.
    Plain,
}

/// Whether a character belongs to a run.
pub open spec fn in_run(kind: Run, c: char) -> bool {
    match kind {
        Run::Ident => is_ident_part(c),
        Run::Digits => is_digit(c),
        Run::Plain => c != '{' && c != '}',
    }
}

/// How many characters at the start of `rest` belong to a run.
pub open spec fn run(kind: Run, rest: Seq<char>) -> nat
    decreases rest.len(),
{
    if rest.len() > 0 && in_run(kind, rest[0]) {
        1 + run(kind, rest.drop_first())
    } else {
        0
    }
}

/// The number of bytes that characters take in UTF-8, which wraps around where
/// it does not fit.
pub open spec fn bytes(text: Seq<char>) -> usize
    decreases text.len(),
{
    if text.len() == 0 {
        0
    } else {
        bytes(text.drop_last()).wrapping_add(utf8_len(text.last()))
    }
}

/// The number that decimal digits stand for.
pub open spec fn digits_value(digits: Seq<char>) -> nat
    decreases digits.len(),
{
    if digits.len() == 0 {
        0
    } else {
        digits_value(digits.drop_last()) * 10 + (digits.last() as u32 - '0' as u32) as nat
    }
}

/// The token for a word: a keyword, or a name.
pub open spec fn reserved(word: Seq<char>) -> TokenView {
    if word == "true"@ {
        TokenView::Boolean(true)
    } else if word == "false"@ {
        TokenView::Boolean(false)
    } else if word == "record"@ {
        TokenView::Record
    } else if word == "new"@ {
        TokenView::New
    } else if word == "struct"@ {
        TokenView::Struct
    } else if word == "match"@ {
        TokenView::Match
    } else if word == "func"@ {
        TokenView::Func
    } else if word == "const"@ {
        TokenView::Const
    } else if word == "let"@ {
        TokenView::Let
    } else if word == "while"@ {
        TokenView::While
    } else if word == "for"@ {
        TokenView::For
    } else if word == "in"@ {
        TokenView::In
    } else if word == "if"@ {
        TokenView::If
    } else if word == "else"@ {
        TokenView::Else
    } else {
        TokenView::Ident(word)
    }
}

/// The token that starts with the character `c`, which is no letter, no digit,
/// no minus, no quote and no whitespace, and whether it takes the character
/// behind it as well.
pub open spec fn other(c: char, rest: Seq<char>) -> (TokenView, bool) {
    let next: Option<char> = if rest.len() > 0 {
        Some(rest[0])
    } else {
        None
    };
    if c == '[' {
        (TokenView::BracketOpen, false)
    } else if c == ']' {
        (TokenView::BracketClose, false)
    } else if c == '{' {
        (TokenView::BraceOpen, false)
    } else if c == '}' {
        (TokenView::BraceClose, false)
    } else if c == '(' {
        (TokenView::ParenOpen, false)
    } else if c == ')' {
        (TokenView::ParenClose, false)
    } else if c == '!' {
        if next == Some('=') {
            (TokenView::NotEq, true)
        } else {
            (TokenView::Not, false)
        }
    } else if c == '=' {
        if next == Some('=') {
            (TokenView::EqEq, true)
        } else if next == Some('>') {
            (TokenView::FatArrow, true)
        } else {
            (TokenView::Eq, false)
        }
    } else if c == ':' {
        (TokenView::Colon, false)
    } else if c == ';' {
        (TokenView::Semi, false)
    } else if c == '+' {
        (TokenView::Plus, false)
    } else if c == '*' {
        (TokenView::Star, false)
    } else if c == '/' {
        (TokenView::Slash, false)
    } else if c == '%' {
        (TokenView::Percent, false)
    } else if c == '.' {
        (TokenView::Dot, false)
    } else if c == ',' {
        (TokenView::Comma, false)
    } else if c == '#' {
        (TokenView::Pound, false)
    } else if c == '>' {
        (TokenView::Greater, false)
    } else if c == '<' {
        (TokenView::Less, false)
    } else if c == '&' && next == Some('&') {
        (TokenView::And, true)
    } else if c == '|' && next == Some('|') {
        (TokenView::Or, true)
    } else {
        (TokenView::Unknown(c), false)
    }
}

/// A number as the lexer reads it: its token, how many characters it takes
/// behind its first digit, and how many characters its text has.
pub ghost struct NumberRead {
    pub token: TokenView,
    pub taken: nat,
    pub length: nat,
}

/// The number that starts with the digit `first`, `rest` behind it: digits,
/// and where a point and a digit follow them, the point and the digits behind
/// it, which makes a float, written with all the digits on both sides of the
/// point. A minus in front makes the number negative. There is no token for an
/// integer beyond the largest one.
pub open spec fn number(first: char, rest: Seq<char>, negative: bool) -> Option<NumberRead> {
    let whole = run(Run::Digits, rest);
    let behind = rest.skip(whole as int);
    if behind.len() >= 2 && behind[0] == '.' && is_digit(behind[1]) {
        let fraction = run(Run::Digits, behind.skip(1));
        Some(
            NumberRead {
                token: TokenView::Float(
                    DecimalView {
                        negative,
                        digits: seq![first] + rest.take(whole as int) + behind.skip(1).take(
                            fraction as int,
                        ),
                        scale: fraction as usize,
                    },
                ),
                taken: whole + 1 + fraction,
                length: whole + 2 + fraction,
            },
        )
    } else {
        let value = digits_value(seq![first] + rest.take(whole as int));
        if value > i64::MAX {
            None
        } else {
            Some(
                NumberRead {
                    token: TokenView::Integer(
                        if negative {
                            (-(value as int)) as i64
                        } else {
                            value as i64
                        },
                    ),
                    taken: whole,
                    length: whole + 1,
                },
            )
        }
    }
}

/// What the lexer holds while it reads a string: what is still to read, how
/// many characters and bytes it has read, the text since the last
/// interpolation, and the texts and the interpolations before.
pub ghost struct StringScan {
    pub rest: Seq<char>,
    pub size: usize,
    pub utf8size: usize,
    pub data: Seq<char>,
    pub datas: Seq<Seq<char>>,
    pub formatted: Seq<Seq<char>>,
}

impl StringScan {
    pub open spec fn start(rest: Seq<char>) -> StringScan {
        StringScan {
            rest,
            size: 0,
            utf8size: 0,
            data: Seq::empty(),
            datas: Seq::empty(),
            formatted: Seq::empty(),
        }
    }

    /// With the next character read.
    pub open spec fn taken(self) -> StringScan {
        StringScan {
            rest: self.rest.drop_first(),
            size: self.size.wrapping_add(1),
            utf8size: self.utf8size.wrapping_add(utf8_len(self.rest[0])),
            ..self
        }
    }

    /// With the characters up to the next brace read as one more
    /// interpolation.
    pub open spec fn interpolated(self) -> StringScan {
        let inner = self.rest.take(run(Run::Plain, self.rest) as int);
        StringScan {
            rest: self.rest.skip(inner.len() as int),
            size: self.size.wrapping_add(inner.len() as usize),
            utf8size: self.utf8size.wrapping_add(bytes(inner)),
            formatted: self.formatted.push(inner),
            ..self
        }
    }

    /// Reads up to the quote that ends the string, or to the end of the text.
    /// A backslash takes the character behind it into the text as it stands,
    /// and then stands in the text itself. An opening brace starts an
    /// interpolation, which goes up to the next brace; a closing one is
    /// dropped.
    pub open spec fn scan(self) -> StringScan
        decreases self.rest.len(),
    {
        if self.rest.len() == 0 || self.rest[0] == '"' {
            self
        } else {
            let character = self.rest[0];
            let read = self.taken();
            let escaped = if character == '\\' && read.rest.len() > 0 {
                StringScan { data: read.data.push(read.rest[0]), ..read.taken() }
            } else {
                read
            };
            if character == '{' {
                let inner = StringScan {
                    datas: escaped.datas.push(escaped.data),
                    data: Seq::empty(),
                    ..escaped
                }.interpolated();
                let closed = StringScan {
                    size: inner.size.wrapping_add(1),
                    utf8size: inner.utf8size.wrapping_add(1),
                    rest: if inner.rest.len() > 0 && inner.rest[0] == '}' {
                        inner.rest.drop_first()
                    } else {
                        inner.rest
                    },
                    ..inner
                };
                if closed.rest.len() < self.rest.len() {
                    closed.scan()
                } else {
                    closed
                }
            } else {
                let kept = StringScan { data: escaped.data.push(character), ..escaped };
                if kept.rest.len() < self.rest.len() {
                    kept.scan()
                } else {
                    kept
                }
            }
        }
    }
}

/// What the lexer makes of one token: the token, unless it read whitespace,
/// the span of the token, the span it goes on from, and what is left to read.
pub ghost struct Step {
    pub token: Option<Positioned<TokenView>>,
    pub span: Span,
    pub rest: Seq<char>,
}

/// The span of a token of `length` bytes that starts where `span` ends.
pub open spec fn advanced(span: Span, length: usize) -> Span {
    Span { start: span.end, end: span.end.wrapping_add(length), ..span }
}

/// The same span `columns` further to the right.
pub open spec fn shifted(span: Span, columns: usize) -> Span {
    Span { column: span.column.wrapping_add(columns), ..span }
}

/// The tokens of `rest`, read from `span` on, behind `tokens`: the text is read
/// token by token to its end, where the token for the end follows. There are no
/// tokens for a text with an integer that has no token.
pub open spec fn lex(rest: Seq<char>, span: Span, tokens: Seq<Positioned<TokenView>>) -> Option<
    Seq<Positioned<TokenView>>,
>
    decreases rest.len(), 2nat, 0nat,
{
    if rest.len() == 0 {
        Some(tokens.push(Positioned { value: TokenView::EOF, span }))
    } else {
        match step(rest, span) {
            None => None,
            Some(read) => if read.rest.len() < rest.len() {
                lex(
                    read.rest,
                    read.span,
                    match read.token {
                        Some(token) => tokens.push(token),
                        None => tokens,
                    },
                )
            } else {
                None
            },
        }
    }
}

/// The tokens of a text.
pub open spec fn lexed(text: Seq<char>) -> Option<Seq<Positioned<TokenView>>>
    decreases text.len(), 3nat, 0nat,
{
    lex(text, Span { start: 0, end: 0, line: 0, column: 0 }, Seq::empty())
}

/// The pieces of a string with interpolations, from the `from`-th one on,
/// behind `parts`: each text is followed by the tokens of the interpolation
/// behind it. An interpolation is shorter than `bound`.
pub open spec fn interleaved(
    datas: Seq<Seq<char>>,
    formatted: Seq<Seq<char>>,
    from: int,
    bound: nat,
    parts: Seq<StringPartView>,
) -> Option<Seq<StringPartView>>
    decreases bound, 0nat, datas.len() - from,
{
    if from < 0 || from >= datas.len() || from >= formatted.len() {
        Some(parts)
    } else if formatted[from].len() >= bound {
        None
    } else {
        match lexed(formatted[from]) {
            None => None,
            Some(tokens) => interleaved(
                datas,
                formatted,
                from + 1,
                bound,
                parts.push(StringPartView::String(datas[from])).push(
                    StringPartView::Formatted(tokens),
                ),
            ),
        }
    }
}

/// The next token of `rest`, which is not empty, read from `span` on.
pub open spec fn step(rest: Seq<char>, span: Span) -> Option<Step>
    decreases rest.len(), 1nat, 0nat,
{
    let first = rest[0];
    let behind = rest.drop_first();
    if is_letter(first) {
        let run = run(Run::Ident, behind);
        let at = shifted(advanced(span, (run + 1) as usize), (run + 1) as usize);
        Some(
            Step {
                token: Some(Positioned { value: reserved(rest.take(run as int + 1)), span: at }),
                span: at,
                rest: behind.skip(run as int),
            },
        )
    } else if is_digit(first) || (first == '-' && behind.len() > 0 && is_digit(behind[0])) {
        let negative = first == '-';
        let digits = if negative {
            behind
        } else {
            rest
        };
        match number(digits[0], digits.drop_first(), negative) {
            None => None,
            Some(read) => {
                let at = advanced(span, read.length as usize);
                Some(
                    Step {
                        token: Some(Positioned { value: read.token, span: at }),
                        span: shifted(at, read.length as usize),
                        rest: digits.drop_first().skip(read.taken as int),
                    },
                )
            },
        }
    } else if first == '-' {
        let at = advanced(span, 1);
        Some(
            Step {
                token: Some(Positioned { value: TokenView::Minus, span: at }),
                span: shifted(at, 1),
                rest: behind,
            },
        )
    } else if first == '"' {
        let scanned = StringScan::start(behind).scan();
        let at = shifted(
            advanced(shifted(advanced(span, 1), 1), scanned.utf8size.wrapping_add(1)),
            scanned.size.wrapping_add(1),
        );
        let left = if scanned.rest.len() > 0 && scanned.rest[0] == '"' {
            scanned.rest.drop_first()
        } else {
            scanned.rest
        };
        if scanned.datas.len() == 0 && scanned.formatted.len() == 0 {
            Some(
                Step {
                    token: Some(Positioned { value: TokenView::String(scanned.data), span: at }),
                    span: at,
                    rest: left,
                },
            )
        } else {
            match interleaved(scanned.datas, scanned.formatted, 0, rest.len(), Seq::empty()) {
                None => None,
                Some(parts) => Some(
                    Step {
                        token: Some(
                            Positioned {
                                value: TokenView::FormattedString(
                                    parts.push(StringPartView::String(scanned.data)),
                                ),
                                span: at,
                            },
                        ),
                        span: at,
                        rest: left,
                    },
                ),
            }
        }
    } else {
        let at = advanced(span, 1);
        if is_whitespace(first) {
            Some(
                Step {
                    token: None,
                    span: if first == '\n' {
                        Span { line: at.line.wrapping_add(1), column: 0, ..at }
                    } else {
                        shifted(at, 1)
                    },
                    rest: behind,
                },
            )
        } else {
            let (token, double) = other(first, behind);
            Some(
                Step {
                    token: Some(Positioned { value: token, span: at }),
                    span: if double {
                        shifted(Span { end: at.end.wrapping_add(1), ..at }, 2)
                    } else {
                        shifted(at, 1)
                    },
                    rest: if double {
                        behind.drop_first()
                    } else {
                        behind
                    },
                },
            )
        }
    }
}

} // verus!
