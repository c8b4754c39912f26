use tapt::lexer::{Lexer, Token};
use tapt::parser::{
    Block, Expression, IndexKind, InstanceArgs, Literal, MatchCase, Number, Operator, ParseMessage,
    Parser, Precedence, Statement,
};
use tapt::{Positioned, Span, Type};
use tapt::parser::{Ident, Parse, ParseResultExt};

fn parser(text: &str) -> Parser {
    Parser::new(Lexer::try_parse(text).unwrap())
}

fn expression(text: &str) -> Expression {
    Expression::parse(&mut parser(text)).unwrap().value
}

fn statements(text: &str) -> (Vec<Positioned<Statement>>, Option<Positioned<Statement>>) {
    Block::parse_statements_until(&mut parser(text), &Token::EOF).unwrap()
}

/// An expression written with all its parentheses.
fn shape(expression: &Expression) -> String {
    match expression {
        Expression::Literal(Literal::Number(Number::Int(value))) => format!("{value}"),
        Expression::Literal(Literal::Boolean(value)) => format!("{value}"),
        Expression::Literal(Literal::String(value)) => format!("{value:?}"),
        Expression::Literal(Literal::Number(Number::Float(value))) => format!("{value:?}"),
        Expression::Ident(name) => name.0.clone(),
        Expression::Binary(binary) => format!(
            "({} {:?} {})",
            shape(&binary.lhs.value),
            binary.operator.value,
            shape(&binary.rhs.value)
        ),
        Expression::FunctionCall(call) => format!(
            "{}({})",
            shape(&call.target.value),
            call.args.value.iter().map(|arg| shape(&arg.value)).collect::<Vec<_>>().join(", ")
        ),
        Expression::Index(index) => match &index.index.value {
            IndexKind::Number(place) => format!("{}.{place}", shape(&index.target.value)),
            IndexKind::Ident(name) => format!("{}.{}", shape(&index.target.value), name.0),
        },
        other => format!("{other:?}"),
    }
}

#[test]
fn operators_of_one_precedence_group_to_the_left() {
    assert_eq!(shape(&expression("1 - 2 - 3")), "((1 Sub 2) Sub 3)");
    assert_eq!(shape(&expression("a = b = c")), "((a Assign b) Assign c)");
    assert_eq!(shape(&expression("8 / 4 * 2")), "((8 Div 4) Mul 2)");
}

#[test]
fn tighter_operators_are_taken_first() {
    assert_eq!(shape(&expression("1 + 2 * 3")), "(1 Add (2 Mul 3))");
    assert_eq!(shape(&expression("1 * 2 + 3")), "((1 Mul 2) Add 3)");
    assert_eq!(shape(&expression("a == b < c + d * e")), "(a Equal (b LessThan (c Add (d Mul e))))");
    assert_eq!(shape(&expression("x = 1 + 2 != 4")), "((x Assign (1 Add 2)) NotEqual 4)");
    assert_eq!(shape(&expression("x = 1 < 2")), "(x Assign (1 LessThan 2))");
    assert_eq!(shape(&expression("(1 + 2) * 3")), "((1 Add 2) Mul 3)");
}

#[test]
fn calls_and_properties_bind_tightest() {
    assert_eq!(shape(&expression("f(1, 2) + g()")), "(f(1, 2) Add g())");
    assert_eq!(shape(&expression("p.0 + p.x.y")), "(p.0 Add p.x.y)");
    assert_eq!(shape(&expression("f(a)(b).c")), "f(a)(b).c");
    assert_eq!(shape(&expression("f(1,)")), "f(1)");
}

#[test]
fn the_precedence_of_tokens() {
    let place = Span::new(1, 2, 3, 4);
    let token = |value| Positioned::new(value, place);
    assert_eq!(
        Precedence::from_ref(&token(Token::Eq)),
        (Precedence::PEquals, Some(Positioned::new(Operator::Assign, place)))
    );
    assert_eq!(
        Precedence::from_ref(&token(Token::Star)),
        (Precedence::PProduct, Some(Positioned::new(Operator::Mul, place)))
    );
    assert_eq!(Precedence::from_ref(&token(Token::ParenOpen)), (Precedence::PCall, None));
    assert_eq!(Precedence::from_ref(&token(Token::Dot)), (Precedence::PIndex, None));
    assert_eq!(Precedence::from_ref(&token(Token::And)), (Precedence::PLowest, None));
    assert!(Precedence::PLowest < Precedence::PEquals);
    assert!(Precedence::PCall < Precedence::PIndex);
    assert_eq!(Precedence::of_operator(Operator::Sub), Precedence::PSum);
}

#[test]
fn spans_go_from_the_first_token_to_the_last() {
    let parsed = Expression::parse(&mut parser("ab + cd")).unwrap();
    assert_eq!(parsed.span.start, 0);
    assert_eq!(parsed.span.end, 7);
    match parsed.value {
        Expression::Binary(binary) => {
            assert_eq!(binary.operator.span, Span::new(3, 4, 0, 3));
            assert_eq!(binary.rhs.span, Span::new(5, 7, 0, 7));
        }
        other => panic!("{other:?}"),
    }
}

#[test]
fn statements_are_told_by_their_first_token() {
    let (statements, ending) = statements(
        "let a = 1; const b: int = 2; struct S { x: int, y: bool } record R(int, string); \
         func f(p: int): bool { true } for i in xs { } while true { } a; b",
    );
    assert_eq!(statements.len(), 8);
    assert!(matches!(&statements[0].value, Statement::Variable(v) if v.mutable.value && v.ty.is_none()));
    assert!(matches!(
        &statements[1].value,
        Statement::Variable(v) if !v.mutable.value && v.ty.as_ref().unwrap().value == Type::Integer
    ));
    match &statements[2].value {
        Statement::Struct(structure) => {
            assert_eq!(structure.name.value.0, "S");
            assert_eq!(structure.fields.value.len(), 2);
            assert_eq!(structure.fields.value[1].value.ty.value, Type::Boolean);
        }
        other => panic!("{other:?}"),
    }
    match &statements[3].value {
        Statement::Record(record) => {
            let types: Vec<Type> = record.fields.value.iter().map(|field| field.value.clone()).collect();
            assert_eq!(types, vec![Type::Integer, Type::String]);
        }
        other => panic!("{other:?}"),
    }
    match &statements[4].value {
        Statement::Func(func) => {
            assert_eq!(func.name.value.0, "f");
            assert_eq!(func.args.value[0].value.name.value.0, "p");
            assert_eq!(func.output_type.as_ref().unwrap().value, Type::Boolean);
            assert!(func.body.value.return_statement.is_some());
        }
        other => panic!("{other:?}"),
    }
    assert!(matches!(&statements[5].value, Statement::ForIn(each) if each.name.value.0 == "i"));
    assert!(matches!(&statements[6].value, Statement::WhileLoop(_)));
    assert!(matches!(&statements[7].value, Statement::Expression(Expression::Ident(_))));
    assert!(matches!(ending.unwrap().value, Statement::Expression(Expression::Ident(name)) if name.0 == "b"));
}

#[test]
fn only_the_last_expression_goes_without_a_semicolon() {
    let error = Block::parse_statements_until(&mut parser("1 2"), &Token::EOF).unwrap_err();
    assert_eq!(error.message, ParseMessage::Text("missing ;".to_string()));
    assert_eq!(error.span, Some(Span::new(0, 1, 0, 0)));
    assert_eq!(error.location(), error.span);
    let (done, ending) = statements("1; 2;");
    assert_eq!(done.len(), 2);
    assert!(ending.is_none());
    let (done, ending) = statements("");
    assert!(done.is_empty() && ending.is_none());
}

#[test]
fn blocks_conditionals_and_matches() {
    match expression("{ let a = 1; a }") {
        Expression::Block(block) => {
            assert_eq!(block.statements.len(), 1);
            assert!(block.return_statement.is_some());
        }
        other => panic!("{other:?}"),
    }
    match expression("if a { 1 } else if b { 2 } else { 3 }") {
        Expression::IfElse(first) => match first.else_block.unwrap().value {
            Expression::IfElse(second) => {
                assert!(matches!(second.else_block.unwrap().value, Expression::Block(_)));
            }
            other => panic!("{other:?}"),
        },
        other => panic!("{other:?}"),
    }
    match expression("match x { y => 1, 2 => 3, }") {
        Expression::Match(matching) => {
            assert_eq!(matching.variants.len(), 2);
            assert!(matches!(&matching.variants[0].value.case.value, MatchCase::Ident(name) if name.0 == "y"));
            assert!(matches!(&matching.variants[1].value.case.value, MatchCase::Value(_)));
        }
        other => panic!("{other:?}"),
    }
}

#[test]
fn new_instances() {
    match expression("new P(1, 2)") {
        Expression::NewInstance(new) => {
            assert_eq!(new.target.value.0, "P");
            assert!(matches!(new.args.value, InstanceArgs::Record(values) if values.len() == 2));
        }
        other => panic!("{other:?}"),
    }
    match expression("new S{ b: 2, a: 1 }") {
        Expression::NewInstance(new) => match new.args.value {
            InstanceArgs::Struct(fields) => {
                assert_eq!(fields[0].value.name.value.0, "b");
                assert_eq!(fields[1].value.name.value.0, "a");
            }
            other => panic!("{other:?}"),
        },
        other => panic!("{other:?}"),
    }
}

#[test]
fn errors_name_what_was_found() {
    let error = Expression::parse(&mut parser(")")).unwrap_err();
    assert_eq!(error.message, ParseMessage::Unexpected(Some(Token::ParenClose)));
    assert_eq!(error.span, Some(Span::new(0, 1, 0, 0)));
    let error = Expression::parse(&mut parser("f(1 2)")).unwrap_err();
    assert_eq!(
        error.message,
        ParseMessage::Expected(vec![Token::Comma], Some(Token::Integer(2)))
    );
    let error = Expression::parse(&mut Parser::new(Vec::new())).unwrap_err();
    assert_eq!(error.message, ParseMessage::Unexpected(None));
    assert_eq!(error.span, None);
    let error = Statement::parse(&mut parser("let x: list = 1;")).unwrap_err();
    assert_eq!(error.message, ParseMessage::Unexpected(Some(Token::Ident("list".to_string()))));
    let error = Expression::parse(&mut parser("p.-1")).unwrap_err();
    assert_eq!(error.message, ParseMessage::Unexpected(Some(Token::Integer(-1))));
    let error = Expression::parse(&mut parser("x[1]")).unwrap_err();
    assert_eq!(
        error.message,
        ParseMessage::Expected(vec![Token::Dot], Some(Token::BracketOpen))
    );
}

#[test]
fn the_parser_hands_tokens_out() {
    let mut tokens = parser("a , b");
    assert!(tokens.check(&Token::Ident("a".to_string())));
    assert!(tokens.check2(&Token::Comma));
    assert!(tokens.check3(&Token::Ident("b".to_string())));
    assert!(!tokens.check(&Token::Comma));
    assert!(tokens.verify(&Token::Comma).is_err());
    assert!(tokens.verify2(&Token::Comma).is_ok());
    assert!(tokens.verify3(&Token::Comma).is_err());
    assert!(tokens.check_if(|token| token.is_ident()));
    assert!(tokens.verify2_if(|token| token.is_ident()).is_err());
    assert!(!tokens.try_consume(&Token::Comma));
    assert_eq!(tokens.peek().unwrap().value, Token::Ident("a".to_string()));
    assert_eq!(tokens.next().unwrap().value, Token::Ident("a".to_string()));
    assert!(tokens.consume(&Token::Dot).is_err());
    assert_eq!(tokens.consume(&Token::Comma).unwrap().span, Span::new(2, 3, 0, 2));
    assert!(tokens.consume_one_of(&vec![Token::Dot, Token::Semi]).is_err());
    assert_eq!(tokens.next_if(|token| token.is_number()), None);
    let name = tokens.consume_map(|token| match token {
        Token::Ident(name) => Some(name.len()),
        _ => None,
    });
    assert_eq!(name.unwrap().value, 1);
    assert!(tokens.consume_if(|token| token.is_ident()).is_err());
    let rest = tokens.collect();
    assert_eq!(rest.len(), 1);
    assert_eq!(rest[0].value, Token::EOF);
}

#[test]
fn a_construct_is_parsed_from_a_text() {
    let parsed = <Expression as Parse>::parse_value("1 + 2").unwrap().unwrap();
    assert_eq!(shape(&parsed.value), "(1 Add 2)");
    let name = <Ident as Parse>::parse_value("abc").unwrap().unwrap();
    assert_eq!(name.value, Ident("abc".to_string()));
    assert!(<Type as Parse>::parse_value("int").unwrap().is_ok());
    assert!(<Block as Parse>::parse_value("{ 1 }").unwrap().is_ok());
    assert!(<Statement as Parse>::parse_value("let x = 1;").unwrap().is_ok());
    assert!(<Expression as Parse>::parse_value("99999999999999999999").is_none());
    let failed = <Type as Parse>::parse_value("list").unwrap().message("no such type".to_string());
    let error = failed.unwrap_err();
    assert_eq!(error.message, ParseMessage::Text("no such type".to_string()));
    assert_eq!(error.span, Some(Span::new(0, 4, 0, 4)));
    let kept = <Type as Parse>::parse_value("bool").unwrap().message("unused".to_string());
    assert_eq!(kept.unwrap().value, Type::Boolean);
}

#[test]
fn errors_say_what_was_expected() {
    let mut tokens = parser("5");
    let error = tokens.expected_token("const or let".to_string());
    assert_eq!(
        error.message,
        ParseMessage::ExpectedKind("const or let".to_string(), Some(Token::Integer(5)))
    );
    assert_eq!(error.span, Some(Span::new(0, 1, 0, 0)));
    let mut none = Parser::new(Vec::new());
    let error = none.expected_token("a name".to_string());
    assert_eq!(error.message, ParseMessage::ExpectedKind("a name".to_string(), None));
    assert_eq!(error.span, None);
    let left = parser("a b").collect();
    let error = tapt::parser::ParseError::too_much_tokens(&left);
    assert_eq!(error.message, ParseMessage::TooManyTokens(3));
    assert_eq!(error.message(), &ParseMessage::TooManyTokens(3));
    let error = tapt::parser::ParseError::new("no".to_string(), None);
    assert_eq!(error.message, ParseMessage::Text("no".to_string()));
}

/// The tokens that are left behind a statement that is not one.
fn left(text: &str) -> Vec<Token> {
    let mut parser = parser(text);
    assert!(Statement::parse(&mut parser).is_err(), "{text}");
    parser.collect().into_iter().map(|token| token.value).collect()
}

#[test]
fn an_error_leaves_the_tokens_from_where_it_was_met() {
    assert_eq!(
        left("let = 1;"),
        vec![Token::Eq, Token::Integer(1), Token::Semi, Token::EOF]
    );
    assert_eq!(left("let x 1;"), vec![Token::Integer(1), Token::Semi, Token::EOF]);
    assert_eq!(left("1 + ;"), vec![Token::Semi, Token::EOF]);
    assert_eq!(left("new 1;"), vec![Token::Integer(1), Token::Semi, Token::EOF]);
    assert_eq!(left(""), vec![Token::EOF]);
    let mut parser = parser("a; b c; d");
    assert!(Block::parse_statements_until(&mut parser, &Token::EOF).is_err());
    let rest: Vec<Token> = parser.collect().into_iter().map(|token| token.value).collect();
    assert_eq!(rest, vec![Token::Ident("d".to_string()), Token::EOF]);
}
