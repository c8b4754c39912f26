use tapt::lexer::{Lexer, Token};
use tapt::{Decimal, Span};

fn kinds(text: &str) -> Vec<Token> {
    Lexer::try_parse(text).unwrap().into_iter().map(|token| token.value).collect()
}

#[test]
fn empty_text_is_the_end() {
    let tokens = Lexer::try_parse("").unwrap();
    assert_eq!(tokens.len(), 1);
    assert_eq!(tokens[0].value, Token::EOF);
    assert_eq!(tokens[0].span, Span::new(0, 0, 0, 0));
}

#[test]
fn keywords_and_names() {
    assert_eq!(
        kinds("let x const while for in if else func match struct record new true false"),
        vec![
            Token::Let,
            Token::Ident("x".to_string()),
            Token::Const,
            Token::While,
            Token::For,
            Token::In,
            Token::If,
            Token::Else,
            Token::Func,
            Token::Match,
            Token::Struct,
            Token::Record,
            Token::New,
            Token::Boolean(true),
            Token::Boolean(false),
            Token::EOF,
        ]
    );
}

#[test]
fn names_take_hyphens_and_underscores_behind_the_first_letter() {
    assert_eq!(
        kinds("a-b_c9 _x"),
        vec![
            Token::Ident("a-b_c9".to_string()),
            Token::Unknown('_'),
            Token::Ident("x".to_string()),
            Token::EOF
        ]
    );
}

#[test]
fn minus_before_a_digit_makes_a_negative_number() {
    assert_eq!(
        kinds("1 - 2"),
        vec![Token::Integer(1), Token::Minus, Token::Integer(2), Token::EOF]
    );
    assert_eq!(kinds("1 -2"), vec![Token::Integer(1), Token::Integer(-2), Token::EOF]);
}

#[test]
fn floats_keep_their_decimal() {
    assert_eq!(
        kinds("3.25 -0.5 7."),
        vec![
            Token::Float(Decimal { negative: false, digits: "325".to_string(), scale: 2 }),
            Token::Float(Decimal { negative: true, digits: "05".to_string(), scale: 1 }),
            Token::Integer(7),
            Token::Dot,
            Token::EOF,
        ]
    );
}

#[test]
fn integers_beyond_the_largest_have_no_token() {
    assert_eq!(kinds("9223372036854775807"), vec![Token::Integer(9223372036854775807), Token::EOF]);
    assert!(Lexer::try_parse("9223372036854775808").is_none());
    assert!(Lexer::try_parse("-9223372036854775808").is_none());
    assert!(Lexer::try_parse("\"{99999999999999999999}\"").is_none());
}

#[test]
fn floats_keep_every_digit() {
    let zeros = "0".repeat(40);
    assert_eq!(
        kinds(&format!("3.14159265358979323846 1.0{zeros} {zeros}1.5")),
        vec![
            Token::Float(Decimal {
                negative: false,
                digits: "314159265358979323846".to_string(),
                scale: 20
            }),
            Token::Float(Decimal { negative: false, digits: format!("10{zeros}"), scale: 41 }),
            Token::Float(Decimal { negative: false, digits: format!("{zeros}15"), scale: 1 }),
            Token::EOF
        ]
    );
    let long = format!("340282366920938463463374607431768211456{zeros}.5");
    assert_eq!(
        Lexer::parse(&long)[0],
        Span::new(0, 81, 0, 0).wrap(Token::Float(Decimal {
            negative: false,
            digits: format!("340282366920938463463374607431768211456{zeros}5"),
            scale: 1
        }))
    );
}

#[test]
fn two_character_operators() {
    assert_eq!(
        kinds("== != => && || = ! & |"),
        vec![
            Token::EqEq,
            Token::NotEq,
            Token::FatArrow,
            Token::And,
            Token::Or,
            Token::Eq,
            Token::Not,
            Token::Unknown('&'),
            Token::Unknown('|'),
            Token::EOF,
        ]
    );
}

#[test]
fn punctuation() {
    assert_eq!(
        kinds("[]{}():;+*/%.,#<>"),
        vec![
            Token::BracketOpen,
            Token::BracketClose,
            Token::BraceOpen,
            Token::BraceClose,
            Token::ParenOpen,
            Token::ParenClose,
            Token::Colon,
            Token::Semi,
            Token::Plus,
            Token::Star,
            Token::Slash,
            Token::Percent,
            Token::Dot,
            Token::Comma,
            Token::Pound,
            Token::Less,
            Token::Greater,
            Token::EOF,
        ]
    );
}

#[test]
fn strings_and_escapes() {
    assert_eq!(kinds("\"abc\""), vec![Token::String("abc".to_string()), Token::EOF]);
    assert_eq!(kinds("\"a\\\"b\""), vec![Token::String("a\"\\b".to_string()), Token::EOF]);
    assert_eq!(kinds("\"open"), vec![Token::String("open".to_string()), Token::EOF]);
}

#[test]
fn interpolation_is_lexed_on_its_own() {
    let tokens = Lexer::try_parse("\"a{x + 1}b\"").unwrap();
    match &tokens[0].value {
        Token::FormattedString(parts) => {
            assert_eq!(parts.len(), 3);
            assert_eq!(parts[0], tapt::lexer::StringPart::String("a".to_string()));
            match &parts[1] {
                tapt::lexer::StringPart::Formatted(inner) => {
                    let inner: Vec<Token> = inner.iter().map(|token| token.value.clone()).collect();
                    assert_eq!(
                        inner,
                        vec![Token::Ident("x".to_string()), Token::Plus, Token::Integer(1), Token::EOF]
                    );
                }
                other => panic!("{other:?}"),
            }
            assert_eq!(parts[2], tapt::lexer::StringPart::String("b".to_string()));
        }
        other => panic!("{other:?}"),
    }
}

#[test]
fn spans_follow_lines_and_columns() {
    let tokens = Lexer::try_parse("ab 12\n+").unwrap();
    assert_eq!(tokens[0].span, Span::new(0, 2, 0, 2));
    assert_eq!(tokens[1].span, Span::new(3, 5, 0, 3));
    assert_eq!(tokens[2].span, Span::new(6, 7, 1, 0));
    assert_eq!(tokens[3].span, Span::new(6, 7, 1, 1));
    assert_eq!(tokens[3].value, Token::EOF);
}

#[test]
fn token_predicates() {
    assert!(Token::Ident("a".to_string()).is_ident());
    assert!(Token::Integer(3).is_usize());
    assert!(!Token::Integer(-3).is_usize());
    assert!(Token::Integer(3).is_number());
    assert!(!Token::Semi.is_number());
    assert_eq!(Token::Integer(42).into_usize(), 42);
    assert!(Token::Ident("int".to_string()).is_ident_and(|name| name == "int"));
    assert!(Token::Comma.same(&Token::Comma));
    assert!(!Token::Comma.same(&Token::Dot));
}
