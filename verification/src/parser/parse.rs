//! The parser: one function for each construct of the grammar.

use crate::lexer::token::{token_view, Token, TokenView};
use crate::parser::ast::{
    BinaryExpression, Block, Expression, ForStatement, FuncArg, FuncStatement, FunctionCall, Ident,
    IfElseExpression, IndexExpression, IndexKind, InstanceArgs, Literal, MatchCase,
    MatchExpression, MatchVariant, NewInstanceExpression, Number, Operator, RecordStatement,
    Statement, StructField, StructFieldValue, StructStatement, VariableStatement, WhileStatement,
};
use crate::parser::error::{ParseError, ParseErrorView, ParseResult};
use crate::parser::model::{
    block_view, expression_view, expressions_view, field_values_view, func_args_view,
    lemma_block_view, lemma_expression_view, name_view, optional_statement_view,
    optional_type_view, positioned_types_view, statement_view, statements_view,
    struct_fields_view, type_view, variants_view, ExpressionView, StatementView,
};
use crate::parser::rules::{
    annotation, as_expressions, as_field_values, as_typed_names, as_types, as_variants, binding,
    block, check, conditional, consume, expression, expression_items, field_value_items, first,
    for_loop, function, ident, index_kind, infix, item, items, list, literal, matching,
    new_instance, optional_annotation, primary, record, statement, statements_until, structure,
    tighter, type_items, typed_name, typed_name_items, variable, variant_items, while_loop,
    ItemView, Listing, Precedence, Stuck, Tokens,
};
use crate::parser::stream::Parser;
use crate::shared::Positioned;
use crate::text::same_text;
use crate::typing::Type;
use vstd::prelude::*;

verus! {

impl Precedence {
    /// The place of the precedence in the order from loose to tight.
    pub fn level(&self) -> (level: u8)
        ensures
            level == self.rank(),
    {
        match self {
            Precedence::PLowest => 0,
            Precedence::PEquals => 1,
            Precedence::PLessGreater => 2,
            Precedence::PSum => 3,
            Precedence::PProduct => 4,
            Precedence::PCall => 5,
            Precedence::PIndex => 6,
        }
    }

    /// The precedence of a token that stands between two expressions, and the
    /// operator that it is, if it is one, at the place of the token.
    pub fn from_ref(token: &Positioned<Token>) -> (found: (Self, Option<Positioned<Operator>>))
        ensures
            found.0 == Precedence::of(token.value@).0,
            found.1 == match Precedence::of(token.value@).1 {
                Some(operator) => Some(Positioned { value: operator, span: token.span }),
                None => None,
            },
    {
        match &token.value {
            Token::Eq => (Self::PEquals, Some(token.span.wrap(Operator::Assign))),
            Token::EqEq => (Self::PEquals, Some(token.span.wrap(Operator::Equal))),
            Token::NotEq => (Self::PEquals, Some(token.span.wrap(Operator::NotEqual))),
            Token::Less => (Self::PLessGreater, Some(token.span.wrap(Operator::LessThan))),
            Token::Greater => (Self::PLessGreater, Some(token.span.wrap(Operator::GreaterThan))),
            Token::Plus => (Self::PSum, Some(token.span.wrap(Operator::Add))),
            Token::Minus => (Self::PSum, Some(token.span.wrap(Operator::Sub))),
            Token::Star => (Self::PProduct, Some(token.span.wrap(Operator::Mul))),
            Token::Slash => (Self::PProduct, Some(token.span.wrap(Operator::Div))),
            Token::ParenOpen => (Self::PCall, None),
            Token::BracketOpen => (Self::PIndex, None),
            Token::Dot => (Self::PIndex, None),
            _ => (Self::PLowest, None),
        }
    }

    /// How tightly an operator binds.
    pub fn of_operator(operator: Operator) -> (precedence: Self)
        ensures
            precedence == binding(operator),
    {
        match operator {
            Operator::Assign | Operator::Equal | Operator::NotEqual => Self::PEquals,
            Operator::LessThan | Operator::GreaterThan => Self::PLessGreater,
            Operator::Add | Operator::Sub => Self::PSum,
            Operator::Mul | Operator::Div => Self::PProduct,
            Operator::And | Operator::Or => Self::PLowest,
        }
    }
}

impl Ident {
    /// Parses a name.
    pub fn parse(parser: &mut Parser) -> (result: ParseResult<Positioned<Self>>)
        ensures
            match ident(old(parser)@) {
                Ok((value, rest)) => result matches Ok(found) && name_view(found) == value
                    && final(parser)@ == rest && final(parser)@.len() < old(parser)@.len(),
                Err(stuck) => result matches Err(found) && found@ == stuck.error && final(parser)@
                    == old(parser)@,
            },
    {
        match parser.peek() {
            Some(Positioned { value: Token::Ident(name), span }) => {
                parser.next();
                Ok(span.wrap(Ident(name)))
            },
            _ => Err(parser.unexpected()),
        }
    }
}

impl Type {
    /// Parses a type in an annotation: `int`, `float`, `bool` or `string`.
    pub fn parse(parser: &mut Parser) -> (result: ParseResult<Positioned<Self>>)
        ensures
            match annotation(old(parser)@) {
                Ok((value, rest)) => result matches Ok(found) && type_view(found) == value
                    && final(parser)@ == rest && final(parser)@.len() < old(parser)@.len(),
                Err(stuck) => result matches Err(found) && found@ == stuck.error && final(parser)@
                    == old(parser)@,
            },
            item(Listing::Types, old(parser)@) == (match annotation(old(parser)@) {
                Ok((value, rest)) => Ok::<(Positioned<ItemView>, Tokens), Stuck>(
                    (Positioned { value: ItemView::Type(value.value), span: value.span }, rest),
                ),
                Err(error) => Err(error),
            }),
    {
        match parser.peek() {
            Some(Positioned { value: Token::Ident(name), span }) => {
                let word = name.as_str();
                let ty = if same_text(word, "int") {
                    Type::Integer
                } else if same_text(word, "float") {
                    Type::Float
                } else if same_text(word, "bool") {
                    Type::Boolean
                } else if same_text(word, "string") {
                    Type::String
                } else {
                    return Err(parser.unexpected());
                };
                parser.next();
                Ok(span.wrap(ty))
            },
            _ => Err(parser.unexpected()),
        }
    }

    /// Parses the type behind a colon, where there is a colon.
    pub fn parse_optional(parser: &mut Parser) -> (result: ParseResult<Option<Positioned<Self>>>)
        ensures
            match optional_annotation(old(parser)@) {
                Ok((value, rest)) => result matches Ok(found) && optional_type_view(found) == value
                    && final(parser)@ == rest && final(parser)@.len() <= old(parser)@.len(),
                Err(stuck) => result matches Err(found) && found@ == stuck.error && final(parser)@
                == stuck.rest,
            },
    {
        if parser.try_consume(&Token::Colon) {
            match Type::parse(parser) {
                Ok(ty) => Ok(Some(ty)),
                Err(error) => Err(error),
            }
        } else {
            Ok(None)
        }
    }
}

impl Literal {
    /// Parses a literal: a boolean, a number or a string.
    pub fn parse(parser: &mut Parser) -> (result: ParseResult<Positioned<Self>>)
        ensures
            match literal(old(parser)@) {
                Ok((value, rest)) => result matches Ok(found) && found.value@ == value.value
                    && found.span == value.span && final(parser)@ == rest && final(parser)@.len()
                    < old(parser)@.len(),
                Err(stuck) => result matches Err(found) && found@ == stuck.error && final(parser)@
                    == old(parser)@,
            },
    {
        let value = match parser.peek() {
            Some(Positioned { value: Token::Boolean(value), span }) => span.wrap(
                Literal::Boolean(value),
            ),
            Some(Positioned { value: Token::Float(value), span }) => span.wrap(
                Literal::Number(Number::Float(value)),
            ),
            Some(Positioned { value: Token::Integer(value), span }) => span.wrap(
                Literal::Number(Number::Int(value)),
            ),
            Some(Positioned { value: Token::String(value), span }) => span.wrap(
                Literal::String(value),
            ),
            _ => {
                return Err(parser.unexpected());
            },
        };
        parser.next();
        Ok(value)
    }
}

impl IndexKind {
    /// Parses what a property is found by: a point, and a name or a number
    /// behind it.
    pub fn parse(parser: &mut Parser) -> (result: ParseResult<Positioned<Self>>)
        ensures
            match index_kind(old(parser)@) {
                Ok((value, rest)) => result matches Ok(found) && found.value@ == value.value
                    && found.span == value.span && final(parser)@ == rest && final(parser)@.len()
                    < old(parser)@.len(),
                Err(stuck) => result matches Err(found) && found@ == stuck.error && final(parser)@
                == stuck.rest,
            },
    {
        match parser.consume(&Token::Dot) {
            Ok(_) => {},
            Err(error) => {
                return Err(error);
            },
        }
        let next = parser.peek();
        match next {
            Some(Positioned { value: Token::Ident(name), span }) => {
                parser.next();
                Ok(span.wrap(IndexKind::Ident(Ident(name))))
            },
            Some(Positioned { value: Token::Integer(value), span }) => {
                let token = Token::Integer(value);
                if token.is_usize() {
                    parser.next();
                    Ok(span.wrap(IndexKind::Number(token.into_usize())))
                } else {
                    Err(parser.unexpected())
                }
            },
            _ => Err(parser.unexpected()),
        }
    }
}

impl StructField {
    /// Parses a name, a colon and a type.
    pub fn parse(parser: &mut Parser) -> (result: ParseResult<Positioned<Self>>)
        ensures
            match typed_name(old(parser)@) {
                Ok((value, rest)) => result matches Ok(found) && found.value@ == value.value
                    && found.span == value.span && final(parser)@ == rest && final(parser)@.len()
                    < old(parser)@.len(),
                Err(stuck) => result matches Err(found) && found@ == stuck.error && final(parser)@
                == stuck.rest,
            },
            item(Listing::Fields, old(parser)@) == (match typed_name(old(parser)@) {
                Ok((value, rest)) => Ok::<(Positioned<ItemView>, Tokens), Stuck>(
                    (Positioned { value: ItemView::TypedName(value.value), span: value.span }, rest),
                ),
                Err(error) => Err(error),
            }),
    {
        let name = match Ident::parse(parser) {
            Ok(name) => name,
            Err(error) => {
                return Err(error);
            },
        };
        match parser.consume(&Token::Colon) {
            Ok(_) => {},
            Err(error) => {
                return Err(error);
            },
        }
        let ty = match Type::parse(parser) {
            Ok(ty) => ty,
            Err(error) => {
                return Err(error);
            },
        };
        Ok(name.between(&ty).wrap(Self { name, ty }))
    }
}

impl FuncArg {
    /// Parses a name, a colon and a type.
    pub fn parse(parser: &mut Parser) -> (result: ParseResult<Positioned<Self>>)
        ensures
            match typed_name(old(parser)@) {
                Ok((value, rest)) => result matches Ok(found) && found.value@ == value.value
                    && found.span == value.span && final(parser)@ == rest && final(parser)@.len()
                    < old(parser)@.len(),
                Err(stuck) => result matches Err(found) && found@ == stuck.error && final(parser)@
                == stuck.rest,
            },
            item(Listing::Parameters, old(parser)@) == (match typed_name(old(parser)@) {
                Ok((value, rest)) => Ok::<(Positioned<ItemView>, Tokens), Stuck>(
                    (Positioned { value: ItemView::TypedName(value.value), span: value.span }, rest),
                ),
                Err(error) => Err(error),
            }),
    {
        let name = match Ident::parse(parser) {
            Ok(name) => name,
            Err(error) => {
                return Err(error);
            },
        };
        match parser.consume(&Token::Colon) {
            Ok(_) => {},
            Err(error) => {
                return Err(error);
            },
        }
        let ty = match Type::parse(parser) {
            Ok(ty) => ty,
            Err(error) => {
                return Err(error);
            },
        };
        Ok(name.between(&ty).wrap(Self { name, ty }))
    }
}

/// Parses expressions in parentheses, parted by commas.
#[verifier::rlimit(40)]
pub fn parse_arguments(parser: &mut Parser) -> (result: ParseResult<Positioned<Vec<Positioned<Expression>>>>)
    ensures
        match list(Listing::Arguments, old(parser)@) {
            Ok((value, rest)) => result matches Ok(found) && expression_items(expressions_view(found.value@))
                == value.value && found.span == value.span && final(parser)@ == rest
                && final(parser)@.len() < old(parser)@.len(),
            Err(stuck) => result matches Err(found) && found@ == stuck.error && final(parser)@
                == stuck.rest,
        },
    decreases old(parser)@.len(), 1nat,
{
    let from = match parser.consume(&Token::ParenOpen) {
        Ok(from) => from,
        Err(error) => {
            return Err(error);
        },
    };
    let ghost start = parser@;
    let mut values: Vec<Positioned<Expression>> = Vec::new();
    let mut done = parser.check(&Token::ParenClose);
    proof {
        assert(expression_items(expressions_view(values@)) =~= Seq::<Positioned<ItemView>>::empty());
    }
    while !done
        invariant
            parser@.len() <= start.len(),
            start.len() < old(parser)@.len(),
            consume(old(parser)@, TokenView::ParenOpen) == Ok::<
                (Positioned<TokenView>, Tokens),
                Stuck,
            >((token_view(from), start)),
            done == check(parser@, TokenView::ParenClose),
            items(Listing::Arguments, start, Seq::empty()) == items(
                Listing::Arguments,
                parser@,
                expression_items(expressions_view(values@)),
            ),
        decreases parser@.len(),
    {
        let value = match Expression::parse(parser) {
            Ok(value) => value,
            Err(error) => {
                return Err(error);
            },
        };
        if !parser.check(&Token::ParenClose) {
            match parser.consume(&Token::Comma) {
                Ok(_) => {},
                Err(error) => {
                    return Err(error);
                },
            }
        }
        let ghost earlier = expression_items(expressions_view(values@));
        let ghost read = Positioned { value: ItemView::Expression(value.value@), span: value.span };
        values.push(value);
        proof {
            assert(expression_items(expressions_view(values@)) =~= earlier.push(read));
        }
        done = parser.check(&Token::ParenClose);
    }
    let to = match parser.consume(&Token::ParenClose) {
        Ok(to) => to,
        Err(error) => {
            return Err(error);
        },
    };
    Ok(from.between(&to).wrap(values))
}

/// Parses the values of the fields of a new struct, in braces.
#[verifier::rlimit(40)]
pub fn parse_field_values(parser: &mut Parser) -> (result: ParseResult<Positioned<Vec<Positioned<StructFieldValue>>>>)
    ensures
        match list(Listing::FieldValues, old(parser)@) {
            Ok((value, rest)) => result matches Ok(found) && field_value_items(field_values_view(found.value@))
                == value.value && found.span == value.span && final(parser)@ == rest
                && final(parser)@.len() < old(parser)@.len(),
            Err(stuck) => result matches Err(found) && found@ == stuck.error && final(parser)@
                == stuck.rest,
        },
    decreases old(parser)@.len(), 1nat,
{
    let from = match parser.consume(&Token::BraceOpen) {
        Ok(from) => from,
        Err(error) => {
            return Err(error);
        },
    };
    let ghost start = parser@;
    let mut values: Vec<Positioned<StructFieldValue>> = Vec::new();
    let mut done = parser.check(&Token::BraceClose);
    proof {
        assert(field_value_items(field_values_view(values@)) =~= Seq::<Positioned<ItemView>>::empty());
    }
    while !done
        invariant
            parser@.len() <= start.len(),
            start.len() < old(parser)@.len(),
            consume(old(parser)@, TokenView::BraceOpen) == Ok::<
                (Positioned<TokenView>, Tokens),
                Stuck,
            >((token_view(from), start)),
            done == check(parser@, TokenView::BraceClose),
            items(Listing::FieldValues, start, Seq::empty()) == items(
                Listing::FieldValues,
                parser@,
                field_value_items(field_values_view(values@)),
            ),
        decreases parser@.len(),
    {
        let value = match StructFieldValue::parse(parser) {
            Ok(value) => value,
            Err(error) => {
                return Err(error);
            },
        };
        if !parser.check(&Token::BraceClose) {
            match parser.consume(&Token::Comma) {
                Ok(_) => {},
                Err(error) => {
                    return Err(error);
                },
            }
        }
        let ghost earlier = field_value_items(field_values_view(values@));
        let ghost read = Positioned { value: ItemView::FieldValue(value.value@), span: value.span };
        values.push(value);
        proof {
            assert(field_value_items(field_values_view(values@)) =~= earlier.push(read));
        }
        done = parser.check(&Token::BraceClose);
    }
    let to = match parser.consume(&Token::BraceClose) {
        Ok(to) => to,
        Err(error) => {
            return Err(error);
        },
    };
    Ok(from.between(&to).wrap(values))
}

/// Parses the arms of a `match`, in braces.
#[verifier::rlimit(40)]
pub fn parse_variants(parser: &mut Parser) -> (result: ParseResult<Positioned<Vec<Positioned<MatchVariant>>>>)
    ensures
        match list(Listing::Variants, old(parser)@) {
            Ok((value, rest)) => result matches Ok(found) && variant_items(variants_view(found.value@))
                == value.value && found.span == value.span && final(parser)@ == rest
                && final(parser)@.len() < old(parser)@.len(),
            Err(stuck) => result matches Err(found) && found@ == stuck.error && final(parser)@
                == stuck.rest,
        },
    decreases old(parser)@.len(), 1nat,
{
    let from = match parser.consume(&Token::BraceOpen) {
        Ok(from) => from,
        Err(error) => {
            return Err(error);
        },
    };
    let ghost start = parser@;
    let mut values: Vec<Positioned<MatchVariant>> = Vec::new();
    let mut done = parser.check(&Token::BraceClose);
    proof {
        assert(variant_items(variants_view(values@)) =~= Seq::<Positioned<ItemView>>::empty());
    }
    while !done
        invariant
            parser@.len() <= start.len(),
            start.len() < old(parser)@.len(),
            consume(old(parser)@, TokenView::BraceOpen) == Ok::<
                (Positioned<TokenView>, Tokens),
                Stuck,
            >((token_view(from), start)),
            done == check(parser@, TokenView::BraceClose),
            items(Listing::Variants, start, Seq::empty()) == items(
                Listing::Variants,
                parser@,
                variant_items(variants_view(values@)),
            ),
        decreases parser@.len(),
    {
        let value = match MatchVariant::parse(parser) {
            Ok(value) => value,
            Err(error) => {
                return Err(error);
            },
        };
        if !parser.check(&Token::BraceClose) {
            match parser.consume(&Token::Comma) {
                Ok(_) => {},
                Err(error) => {
                    return Err(error);
                },
            }
        }
        let ghost earlier = variant_items(variants_view(values@));
        let ghost read = Positioned { value: ItemView::Variant(value.value@), span: value.span };
        values.push(value);
        proof {
            assert(variant_items(variants_view(values@)) =~= earlier.push(read));
        }
        done = parser.check(&Token::BraceClose);
    }
    let to = match parser.consume(&Token::BraceClose) {
        Ok(to) => to,
        Err(error) => {
            return Err(error);
        },
    };
    Ok(from.between(&to).wrap(values))
}

/// Parses the fields of a struct, in braces.
#[verifier::rlimit(40)]
pub fn parse_fields(parser: &mut Parser) -> (result: ParseResult<Positioned<Vec<Positioned<StructField>>>>)
    ensures
        match list(Listing::Fields, old(parser)@) {
            Ok((value, rest)) => result matches Ok(found) && typed_name_items(struct_fields_view(found.value@))
                == value.value && found.span == value.span && final(parser)@ == rest
                && final(parser)@.len() < old(parser)@.len(),
            Err(stuck) => result matches Err(found) && found@ == stuck.error && final(parser)@
                == stuck.rest,
        },
    decreases old(parser)@.len(), 1nat,
{
    let from = match parser.consume(&Token::BraceOpen) {
        Ok(from) => from,
        Err(error) => {
            return Err(error);
        },
    };
    let ghost start = parser@;
    let mut values: Vec<Positioned<StructField>> = Vec::new();
    let mut done = parser.check(&Token::BraceClose);
    proof {
        assert(typed_name_items(struct_fields_view(values@)) =~= Seq::<Positioned<ItemView>>::empty());
    }
    while !done
        invariant
            parser@.len() <= start.len(),
            start.len() < old(parser)@.len(),
            consume(old(parser)@, TokenView::BraceOpen) == Ok::<
                (Positioned<TokenView>, Tokens),
                Stuck,
            >((token_view(from), start)),
            done == check(parser@, TokenView::BraceClose),
            items(Listing::Fields, start, Seq::empty()) == items(
                Listing::Fields,
                parser@,
                typed_name_items(struct_fields_view(values@)),
            ),
        decreases parser@.len(),
    {
        let value = match StructField::parse(parser) {
            Ok(value) => value,
            Err(error) => {
                return Err(error);
            },
        };
        if !parser.check(&Token::BraceClose) {
            match parser.consume(&Token::Comma) {
                Ok(_) => {},
                Err(error) => {
                    return Err(error);
                },
            }
        }
        let ghost earlier = typed_name_items(struct_fields_view(values@));
        let ghost read = Positioned { value: ItemView::TypedName(value.value@), span: value.span };
        values.push(value);
        proof {
            assert(typed_name_items(struct_fields_view(values@)) =~= earlier.push(read));
        }
        done = parser.check(&Token::BraceClose);
    }
    let to = match parser.consume(&Token::BraceClose) {
        Ok(to) => to,
        Err(error) => {
            return Err(error);
        },
    };
    Ok(from.between(&to).wrap(values))
}

/// Parses the parameters of a function, in parentheses.
#[verifier::rlimit(40)]
pub fn parse_parameters(parser: &mut Parser) -> (result: ParseResult<Positioned<Vec<Positioned<FuncArg>>>>)
    ensures
        match list(Listing::Parameters, old(parser)@) {
            Ok((value, rest)) => result matches Ok(found) && typed_name_items(func_args_view(found.value@))
                == value.value && found.span == value.span && final(parser)@ == rest
                && final(parser)@.len() < old(parser)@.len(),
            Err(stuck) => result matches Err(found) && found@ == stuck.error && final(parser)@
                == stuck.rest,
        },
    decreases old(parser)@.len(), 1nat,
{
    let from = match parser.consume(&Token::ParenOpen) {
        Ok(from) => from,
        Err(error) => {
            return Err(error);
        },
    };
    let ghost start = parser@;
    let mut values: Vec<Positioned<FuncArg>> = Vec::new();
    let mut done = parser.check(&Token::ParenClose);
    proof {
        assert(typed_name_items(func_args_view(values@)) =~= Seq::<Positioned<ItemView>>::empty());
    }
    while !done
        invariant
            parser@.len() <= start.len(),
            start.len() < old(parser)@.len(),
            consume(old(parser)@, TokenView::ParenOpen) == Ok::<
                (Positioned<TokenView>, Tokens),
                Stuck,
            >((token_view(from), start)),
            done == check(parser@, TokenView::ParenClose),
            items(Listing::Parameters, start, Seq::empty()) == items(
                Listing::Parameters,
                parser@,
                typed_name_items(func_args_view(values@)),
            ),
        decreases parser@.len(),
    {
        let value = match FuncArg::parse(parser) {
            Ok(value) => value,
            Err(error) => {
                return Err(error);
            },
        };
        if !parser.check(&Token::ParenClose) {
            match parser.consume(&Token::Comma) {
                Ok(_) => {},
                Err(error) => {
                    return Err(error);
                },
            }
        }
        let ghost earlier = typed_name_items(func_args_view(values@));
        let ghost read = Positioned { value: ItemView::TypedName(value.value@), span: value.span };
        values.push(value);
        proof {
            assert(typed_name_items(func_args_view(values@)) =~= earlier.push(read));
        }
        done = parser.check(&Token::ParenClose);
    }
    let to = match parser.consume(&Token::ParenClose) {
        Ok(to) => to,
        Err(error) => {
            return Err(error);
        },
    };
    Ok(from.between(&to).wrap(values))
}

/// Parses the types of the fields of a record, in parentheses.
#[verifier::rlimit(40)]
pub fn parse_types(parser: &mut Parser) -> (result: ParseResult<Positioned<Vec<Positioned<Type>>>>)
    ensures
        match list(Listing::Types, old(parser)@) {
            Ok((value, rest)) => result matches Ok(found) && type_items(positioned_types_view(found.value@))
                == value.value && found.span == value.span && final(parser)@ == rest
                && final(parser)@.len() < old(parser)@.len(),
            Err(stuck) => result matches Err(found) && found@ == stuck.error && final(parser)@
                == stuck.rest,
        },
    decreases old(parser)@.len(), 1nat,
{
    let from = match parser.consume(&Token::ParenOpen) {
        Ok(from) => from,
        Err(error) => {
            return Err(error);
        },
    };
    let ghost start = parser@;
    let mut values: Vec<Positioned<Type>> = Vec::new();
    let mut done = parser.check(&Token::ParenClose);
    proof {
        assert(type_items(positioned_types_view(values@)) =~= Seq::<Positioned<ItemView>>::empty());
    }
    while !done
        invariant
            parser@.len() <= start.len(),
            start.len() < old(parser)@.len(),
            consume(old(parser)@, TokenView::ParenOpen) == Ok::<
                (Positioned<TokenView>, Tokens),
                Stuck,
            >((token_view(from), start)),
            done == check(parser@, TokenView::ParenClose),
            items(Listing::Types, start, Seq::empty()) == items(
                Listing::Types,
                parser@,
                type_items(positioned_types_view(values@)),
            ),
        decreases parser@.len(),
    {
        let value = match Type::parse(parser) {
            Ok(value) => value,
            Err(error) => {
                return Err(error);
            },
        };
        if !parser.check(&Token::ParenClose) {
            match parser.consume(&Token::Comma) {
                Ok(_) => {},
                Err(error) => {
                    return Err(error);
                },
            }
        }
        let ghost earlier = type_items(positioned_types_view(values@));
        let ghost read = Positioned { value: ItemView::Type(value.value@), span: value.span };
        values.push(value);
        proof {
            assert(type_items(positioned_types_view(values@)) =~= earlier.push(read));
        }
        done = parser.check(&Token::ParenClose);
    }
    let to = match parser.consume(&Token::ParenClose) {
        Ok(to) => to,
        Err(error) => {
            return Err(error);
        },
    };
    Ok(from.between(&to).wrap(values))
}

impl StructFieldValue {
    /// Parses a name, a colon and a value.
    pub fn parse(parser: &mut Parser) -> (result: ParseResult<Positioned<Self>>)
        ensures
            match item(Listing::FieldValues, old(parser)@) {
                Ok((value, rest)) => result matches Ok(found) && ItemView::FieldValue(found.value@)
                    == value.value && found.span == value.span && final(parser)@ == rest
                    && final(parser)@.len() < old(parser)@.len(),
                Err(stuck) => result matches Err(found) && found@ == stuck.error && final(parser)@
                == stuck.rest,
            },
        decreases old(parser)@.len(), 10nat,
    {
        let name = match Ident::parse(parser) {
            Ok(name) => name,
            Err(error) => {
                return Err(error);
            },
        };
        match parser.consume(&Token::Colon) {
            Ok(_) => {},
            Err(error) => {
                return Err(error);
            },
        }
        let value = match Expression::parse(parser) {
            Ok(value) => value,
            Err(error) => {
                return Err(error);
            },
        };
        Ok(name.between(&value).wrap(Self { name, value }))
    }
}

impl MatchCase {
    /// Parses the left side of an arm: a name, or else a value.
    pub fn parse(parser: &mut Parser) -> (result: ParseResult<Positioned<Self>>)
        ensures
            match first(old(parser)@) {
                Some(Positioned { value: TokenView::Ident(name), span }) => result matches Ok(found)
                    && found.value@ == crate::parser::model::MatchCaseView::Ident(name)
                    && found.span == span && final(parser)@ == old(parser)@.drop_first(),
                _ => match expression(old(parser)@) {
                    Ok((value, rest)) => result matches Ok(found) && found.value@
                        == crate::parser::model::MatchCaseView::Value(value.value) && found.span
                        == value.span && final(parser)@ == rest && final(parser)@.len() < old(
                        parser,
                    )@.len(),
                    Err(stuck) => result matches Err(found) && found@ == stuck.error && final(parser)@
                == stuck.rest,
                },
            },
        decreases old(parser)@.len(), 9nat,
    {
        match parser.peek() {
            Some(Positioned { value: Token::Ident(name), span }) => {
                parser.next();
                Ok(span.wrap(MatchCase::Ident(Ident(name))))
            },
            _ => match Expression::parse(parser) {
                Ok(value) => Ok(
                    Positioned { value: MatchCase::Value(value.value), span: value.span },
                ),
                Err(error) => Err(error),
            },
        }
    }
}

impl MatchVariant {
    /// Parses an arm: its left side, `=>`, and what it gives.
    pub fn parse(parser: &mut Parser) -> (result: ParseResult<Positioned<Self>>)
        ensures
            match item(Listing::Variants, old(parser)@) {
                Ok((value, rest)) => result matches Ok(found) && ItemView::Variant(found.value@)
                    == value.value && found.span == value.span && final(parser)@ == rest
                    && final(parser)@.len() < old(parser)@.len(),
                Err(stuck) => result matches Err(found) && found@ == stuck.error && final(parser)@
                == stuck.rest,
            },
        decreases old(parser)@.len(), 10nat,
    {
        let case = match MatchCase::parse(parser) {
            Ok(case) => case,
            Err(error) => {
                return Err(error);
            },
        };
        match parser.consume(&Token::FatArrow) {
            Ok(_) => {},
            Err(error) => {
                return Err(error);
            },
        }
        let body = match Expression::parse(parser) {
            Ok(body) => body,
            Err(error) => {
                return Err(error);
            },
        };
        Ok(case.between(&body).wrap(Self { case, body }))
    }
}

impl FunctionCall {
    /// Parses the arguments of a call of `target`.
    pub fn parse(parser: &mut Parser, target: Positioned<Expression>) -> (result: ParseResult<
        Positioned<Self>,
    >)
        ensures
            match list(Listing::Arguments, old(parser)@) {
                Ok((args, rest)) => result matches Ok(found) && expression_view(
                    Positioned { value: Expression::FunctionCall(found.value), span: found.span },
                ) == (Positioned {
                    value: ExpressionView::FunctionCall {
                        target: Box::new(expression_view(target)),
                        args: Positioned { value: as_expressions(args.value), span: args.span },
                    },
                    span: target.span.spec_between(args.span),
                }) && final(parser)@ == rest && final(parser)@.len() < old(parser)@.len(),
                Err(stuck) => result matches Err(found) && found@ == stuck.error && final(parser)@
                == stuck.rest,
            },
        decreases old(parser)@.len(), 2nat,
    {
        let args = match parse_arguments(parser) {
            Ok(args) => args,
            Err(error) => {
                return Err(error);
            },
        };
        let span = target.between(&args);
        let call = Self { target: Box::new(target), args };
        proof {
            lemma_expression_view(Expression::FunctionCall(call));
            assert(as_expressions(list(Listing::Arguments, old(parser)@)->Ok_0.0.value)
                =~= expressions_view(call.args.value@));
        }
        Ok(span.wrap(call))
    }
}

impl IndexExpression {
    /// Parses a property of `target`.
    pub fn parse(parser: &mut Parser, target: Positioned<Expression>) -> (result: ParseResult<
        Positioned<Self>,
    >)
        ensures
            match index_kind(old(parser)@) {
                Ok((index, rest)) => result matches Ok(found) && expression_view(
                    Positioned {
                        value: Expression::Index(Box::new(found.value)),
                        span: found.span,
                    },
                ) == (Positioned {
                    value: ExpressionView::Index { object: Box::new(expression_view(target)), index },
                    span: target.span.spec_between(index.span),
                }) && final(parser)@ == rest && final(parser)@.len() < old(parser)@.len(),
                Err(stuck) => result matches Err(found) && found@ == stuck.error && final(parser)@
                == stuck.rest,
            },
    {
        let index = match IndexKind::parse(parser) {
            Ok(index) => index,
            Err(error) => {
                return Err(error);
            },
        };
        let span = target.between(&index);
        let value = Self { target, index };
        proof {
            lemma_expression_view(Expression::Index(Box::new(value)));
        }
        Ok(span.wrap(value))
    }
}

impl BinaryExpression {
    /// Parses the right side of a binary expression whose left side and
    /// operator are read: it takes only what binds tighter than the operator.
    pub fn parse(parser: &mut Parser, lhs: Positioned<Expression>, operator: Positioned<Operator>) -> (result:
        ParseResult<Positioned<Self>>)
        ensures
            match tighter(old(parser)@, binding(operator.value)) {
                Ok((right, rest)) => result matches Ok(found) && expression_view(
                    Positioned {
                        value: Expression::Binary(Box::new(found.value)),
                        span: found.span,
                    },
                ) == (Positioned {
                    value: ExpressionView::Binary {
                        lhs: Box::new(expression_view(lhs)),
                        rhs: Box::new(right),
                        operator,
                    },
                    span: lhs.span.spec_between(right.span),
                }) && final(parser)@ == rest && final(parser)@.len() < old(parser)@.len(),
                Err(stuck) => result matches Err(found) && found@ == stuck.error && final(parser)@
                == stuck.rest,
            },
        decreases old(parser)@.len(), 5nat, 1nat,
    {
        let rhs = match parse_tighter(parser, Precedence::of_operator(operator.value)) {
            Ok(rhs) => rhs,
            Err(error) => {
                return Err(error);
            },
        };
        let span = lhs.between(&rhs);
        let value = Self { lhs, rhs, operator };
        proof {
            lemma_expression_view(Expression::Binary(Box::new(value)));
        }
        Ok(span.wrap(value))
    }
}

/// Parses an expression that takes only what binds tighter than `threshold`.
#[verifier::rlimit(40)]
pub fn parse_tighter(parser: &mut Parser, threshold: Precedence) -> (result: ParseResult<
    Positioned<Expression>,
>)
    ensures
        match tighter(old(parser)@, threshold) {
            Ok((value, rest)) => result matches Ok(found) && expression_view(found) == value
                && final(parser)@ == rest && final(parser)@.len() < old(parser)@.len(),
            Err(stuck) => result matches Err(found) && found@ == stuck.error && final(parser)@
                == stuck.rest,
        },
    decreases old(parser)@.len(), 5nat, 0nat,
{
    let mut left = match parse_primary(parser) {
        Ok(left) => left,
        Err(error) => {
            return Err(error);
        },
    };
    loop
        invariant
            parser@.len() < old(parser)@.len(),
            tighter(old(parser)@, threshold) == infix(parser@, threshold, expression_view(left)),
        decreases parser@.len(),
    {
        let token = match parser.peek() {
            Some(token) => token,
            None => {
                return Ok(left);
            },
        };
        let (precedence, operator) = Precedence::from_ref(&token);
        if precedence.level() <= threshold.level() {
            return Ok(left);
        }
        match precedence {
            Precedence::PCall => {
                left = match FunctionCall::parse(parser, left) {
                    Ok(call) => Positioned {
                        value: Expression::FunctionCall(call.value),
                        span: call.span,
                    },
                    Err(error) => {
                        return Err(error);
                    },
                };
            },
            Precedence::PIndex => {
                left = match IndexExpression::parse(parser, left) {
                    Ok(index) => Positioned {
                        value: Expression::Index(Box::new(index.value)),
                        span: index.span,
                    },
                    Err(error) => {
                        return Err(error);
                    },
                };
            },
            _ => match operator {
                None => {
                    return Ok(left);
                },
                Some(operator) => {
                    parser.next();
                    left = match BinaryExpression::parse(parser, left, operator) {
                        Ok(binary) => Positioned {
                            value: Expression::Binary(Box::new(binary.value)),
                            span: binary.span,
                        },
                        Err(error) => {
                            return Err(error);
                        },
                    };
                },
            },
        }
    }
}

/// Parses an expression that starts with no other one.
#[verifier::rlimit(40)]
pub fn parse_primary(parser: &mut Parser) -> (result: ParseResult<Positioned<Expression>>)
    ensures
        match primary(old(parser)@) {
            Ok((value, rest)) => result matches Ok(found) && expression_view(found) == value
                && final(parser)@ == rest && final(parser)@.len() < old(parser)@.len(),
            Err(stuck) => result matches Err(found) && found@ == stuck.error && final(parser)@
                == stuck.rest,
        },
    decreases old(parser)@.len(), 4nat,
{
    let token = match parser.peek() {
        Some(token) => token,
        None => {
            return Err(parser.unexpected());
        },
    };
    match token.value {
        Token::Boolean(_) | Token::Float(_) | Token::Integer(_) | Token::String(_) => {
            match Literal::parse(parser) {
                Ok(value) => Ok(
                    Positioned { value: Expression::Literal(value.value), span: value.span },
                ),
                Err(error) => Err(error),
            }
        },
        Token::Ident(name) => {
            parser.next();
            Ok(token.span.wrap(Expression::Ident(Ident(name))))
        },
        Token::New => match NewInstanceExpression::parse(parser) {
            Ok(value) => Ok(
                Positioned { value: Expression::NewInstance(value.value), span: value.span },
            ),
            Err(error) => Err(error),
        },
        Token::Match => match MatchExpression::parse(parser) {
            Ok(value) => Ok(Positioned { value: Expression::Match(value.value), span: value.span }),
            Err(error) => Err(error),
        },
        Token::If => match IfElseExpression::parse(parser) {
            Ok(value) => Ok(Positioned { value: Expression::IfElse(value.value), span: value.span }),
            Err(error) => Err(error),
        },
        Token::BraceOpen => match Block::parse(parser) {
            Ok(value) => Ok(Positioned { value: Expression::Block(value.value), span: value.span }),
            Err(error) => Err(error),
        },
        Token::ParenOpen => {
            parser.next();
            let inner = match Expression::parse(parser) {
                Ok(inner) => inner,
                Err(error) => {
                    return Err(error);
                },
            };
            let close = match parser.consume(&Token::ParenClose) {
                Ok(close) => close,
                Err(error) => {
                    return Err(error);
                },
            };
            Ok(Positioned { value: inner.value, span: token.span.between(close.span) })
        },
        _ => Err(parser.unexpected()),
    }
}

impl Expression {
    /// Parses an expression.
    pub fn parse(parser: &mut Parser) -> (result: ParseResult<Positioned<Self>>)
        ensures
            match expression(old(parser)@) {
                Ok((value, rest)) => result matches Ok(found) && expression_view(found) == value
                    && final(parser)@ == rest && final(parser)@.len() < old(parser)@.len(),
                Err(stuck) => result matches Err(found) && found@ == stuck.error && final(parser)@
                == stuck.rest,
            },
            item(Listing::Arguments, old(parser)@) == (match expression(old(parser)@) {
                Ok((value, rest)) => Ok::<(Positioned<ItemView>, Tokens), Stuck>(
                    (Positioned { value: ItemView::Expression(value.value), span: value.span }, rest),
                ),
                Err(error) => Err(error),
            }),
        decreases old(parser)@.len(), 6nat,
    {
        parse_tighter(parser, Precedence::PLowest)
    }
}

impl NewInstanceExpression {
    /// Parses `new`, a name, and the values of the fields.
    pub fn parse(parser: &mut Parser) -> (result: ParseResult<Positioned<Self>>)
        ensures
            match new_instance(old(parser)@) {
                Ok((value, rest)) => result matches Ok(found) && expression_view(
                    Positioned { value: Expression::NewInstance(found.value), span: found.span },
                ) == value && final(parser)@ == rest && final(parser)@.len() < old(parser)@.len(),
                Err(stuck) => result matches Err(found) && found@ == stuck.error && final(parser)@
                == stuck.rest,
            },
        decreases old(parser)@.len(), 3nat,
    {
        let start = match parser.consume(&Token::New) {
            Ok(start) => start,
            Err(error) => {
                return Err(error);
            },
        };
        let target = match Ident::parse(parser) {
            Ok(target) => target,
            Err(error) => {
                return Err(error);
            },
        };
        let ghost rest = parser@;
        let args = if parser.check(&Token::BraceOpen) {
            match parse_field_values(parser) {
                Ok(fields) => {
                    proof {
                        assert(as_field_values(list(Listing::FieldValues, rest)->Ok_0.0.value)
                            =~= field_values_view(fields.value@));
                    }
                    Positioned { value: InstanceArgs::Struct(fields.value), span: fields.span }
                },
                Err(error) => {
                    return Err(error);
                },
            }
        } else {
            match parse_arguments(parser) {
                Ok(values) => {
                    proof {
                        assert(as_expressions(list(Listing::Arguments, rest)->Ok_0.0.value)
                            =~= expressions_view(values.value@));
                    }
                    Positioned { value: InstanceArgs::Record(values.value), span: values.span }
                },
                Err(error) => {
                    return Err(error);
                },
            }
        };
        let span = start.between(&args);
        let value = Self { target, args };
        proof {
            lemma_expression_view(Expression::NewInstance(value));
        }
        Ok(span.wrap(value))
    }
}

impl MatchExpression {
    /// Parses `match`, what is matched, and the arms.
    pub fn parse(parser: &mut Parser) -> (result: ParseResult<Positioned<Self>>)
        ensures
            match matching(old(parser)@) {
                Ok((value, rest)) => result matches Ok(found) && expression_view(
                    Positioned { value: Expression::Match(found.value), span: found.span },
                ) == value && final(parser)@ == rest && final(parser)@.len() < old(parser)@.len(),
                Err(stuck) => result matches Err(found) && found@ == stuck.error && final(parser)@
                == stuck.rest,
            },
        decreases old(parser)@.len(), 3nat,
    {
        let start = match parser.consume(&Token::Match) {
            Ok(start) => start,
            Err(error) => {
                return Err(error);
            },
        };
        let target = match Expression::parse(parser) {
            Ok(target) => target,
            Err(error) => {
                return Err(error);
            },
        };
        let ghost rest = parser@;
        let variants = match parse_variants(parser) {
            Ok(variants) => variants,
            Err(error) => {
                return Err(error);
            },
        };
        let span = start.between(&variants);
        let value = Self { target: Box::new(target), variants: variants.value };
        proof {
            lemma_expression_view(Expression::Match(value));
            assert(as_variants(list(Listing::Variants, rest)->Ok_0.0.value) =~= variants_view(
                value.variants@,
            ));
        }
        Ok(span.wrap(value))
    }
}

impl IfElseExpression {
    /// Parses `if`, a condition, a block, and what follows `else`, if
    /// anything.
    pub fn parse(parser: &mut Parser) -> (result: ParseResult<Positioned<Self>>)
        ensures
            match conditional(old(parser)@) {
                Ok((value, rest)) => result matches Ok(found) && expression_view(
                    Positioned { value: Expression::IfElse(found.value), span: found.span },
                ) == value && final(parser)@ == rest && final(parser)@.len() < old(parser)@.len(),
                Err(stuck) => result matches Err(found) && found@ == stuck.error && final(parser)@
                == stuck.rest,
            },
        decreases old(parser)@.len(), 3nat,
    {
        let start = match parser.consume(&Token::If) {
            Ok(start) => start,
            Err(error) => {
                return Err(error);
            },
        };
        let condition = match Expression::parse(parser) {
            Ok(condition) => condition,
            Err(error) => {
                return Err(error);
            },
        };
        let block = match Block::parse(parser) {
            Ok(block) => block,
            Err(error) => {
                return Err(error);
            },
        };
        let else_block: Option<Box<Positioned<Expression>>> = if parser.try_consume(&Token::Else) {
            if parser.check(&Token::If) {
                match Self::parse(parser) {
                    Ok(other) => Some(
                        Box::new(
                            Positioned { value: Expression::IfElse(other.value), span: other.span },
                        ),
                    ),
                    Err(error) => {
                        return Err(error);
                    },
                }
            } else {
                match Block::parse(parser) {
                    Ok(other) => Some(
                        Box::new(
                            Positioned { value: Expression::Block(other.value), span: other.span },
                        ),
                    ),
                    Err(error) => {
                        return Err(error);
                    },
                }
            }
        } else {
            None
        };
        let span = match &else_block {
            Some(other) => start.span.between(other.span),
            None => start.between(&block),
        };
        let value = Self { condition: Box::new(condition), block, else_block };
        proof {
            lemma_expression_view(Expression::IfElse(value));
        }
        Ok(span.wrap(value))
    }
}

impl Block {
    /// Parses statements up to the token `until`, which is not taken. Returns
    /// the statements and the expression without a semicolon that may end them.
    #[verifier::rlimit(40)]
    pub fn parse_statements_until(parser: &mut Parser, until: &Token) -> (result: ParseResult<
        (Vec<Positioned<Statement>>, Option<Positioned<Statement>>),
    >)
        ensures
            match statements_until(old(parser)@, until@, Seq::empty(), None) {
                Ok((value, rest)) => result matches Ok(found) && statements_view(found.0@)
                    == value.0 && optional_statement_view(found.1) == value.1 && final(parser)@
                    == rest && final(parser)@.len() <= old(parser)@.len(),
                Err(stuck) => result matches Err(found) && found@ == stuck.error && final(parser)@
                == stuck.rest,
            },
        decreases old(parser)@.len(), 9nat,
    {
        let mut statements: Vec<Positioned<Statement>> = Vec::new();
        let mut return_statement: Option<Positioned<Statement>> = None;
        let mut done = parser.check(until);
        proof {
            assert(statements_view(statements@) =~= Seq::<Positioned<StatementView>>::empty());
        }
        while !done
            invariant
                parser@.len() <= old(parser)@.len(),
                done == check(parser@, until@),
                statements_until(old(parser)@, until@, Seq::empty(), None) == statements_until(
                    parser@,
                    until@,
                    statements_view(statements@),
                    optional_statement_view(return_statement),
                ),
            decreases parser@.len(),
        {
            let statement = match Statement::parse(parser) {
                Ok(statement) => statement,
                Err(error) => {
                    return Err(error);
                },
            };
            let ended = parser.try_consume(&Token::Semi) || matches!(
                statement.value,
                Statement::Variable(_) | Statement::ForIn(_) | Statement::WhileLoop(_)
                    | Statement::Record(_) | Statement::Struct(_) | Statement::Func(_)
            );
            if let Some(last) = &return_statement {
                return Err(ParseError::new(String::from_str("missing ;"), Some(last.span)));
            }
            if ended {
                let ghost earlier = statements_view(statements@);
                let ghost read = statement_view(statement);
                statements.push(statement);
                proof {
                    assert(statements_view(statements@) =~= earlier.push(read));
                }
            } else {
                return_statement = Some(statement);
            }
            done = parser.check(until);
        }
        Ok((statements, return_statement))
    }

    /// Parses statements in braces.
    pub fn parse(parser: &mut Parser) -> (result: ParseResult<Positioned<Self>>)
        ensures
            match block(old(parser)@) {
                Ok((value, rest)) => result matches Ok(found) && block_view(found) == value
                    && final(parser)@ == rest && final(parser)@.len() < old(parser)@.len(),
                Err(stuck) => result matches Err(found) && found@ == stuck.error && final(parser)@
                == stuck.rest,
            },
        decreases old(parser)@.len(), 3nat,
    {
        let from = match parser.consume(&Token::BraceOpen) {
            Ok(from) => from,
            Err(error) => {
                return Err(error);
            },
        };
        let (statements, return_statement) = match Self::parse_statements_until(
            parser,
            &Token::BraceClose,
        ) {
            Ok(read) => read,
            Err(error) => {
                return Err(error);
            },
        };
        let to = match parser.consume(&Token::BraceClose) {
            Ok(to) => to,
            Err(error) => {
                return Err(error);
            },
        };
        let value = Self {
            statements,
            return_statement: match return_statement {
                Some(statement) => Some(Box::new(statement)),
                None => None,
            },
        };
        proof {
            lemma_block_view(value);
        }
        Ok(from.between(&to).wrap(value))
    }
}

impl VariableStatement {
    /// Parses the declaration of a variable.
    pub fn parse(parser: &mut Parser) -> (result: ParseResult<Positioned<Self>>)
        ensures
            match variable(old(parser)@) {
                Ok((value, rest)) => result matches Ok(found) && statement_view(
                    Positioned { value: Statement::Variable(found.value), span: found.span },
                ) == value && final(parser)@ == rest && final(parser)@.len() < old(parser)@.len(),
                Err(stuck) => result matches Err(found) && found@ == stuck.error && final(parser)@
                == stuck.rest,
            },
        decreases old(parser)@.len(), 7nat,
    {
        let mut keywords: Vec<Token> = Vec::new();
        keywords.push(Token::Let);
        keywords.push(Token::Const);
        proof {
            assert(crate::parser::error::token_values(keywords@) =~= seq![
                TokenView::Let,
                TokenView::Const,
            ]);
            assert(seq![TokenView::Let, TokenView::Const][0] == TokenView::Let);
            assert(seq![TokenView::Let, TokenView::Const][1] == TokenView::Const);
        }
        let def = match parser.consume_one_of(&keywords) {
            Ok(def) => def,
            Err(error) => {
                return Err(error);
            },
        };
        let name = match Ident::parse(parser) {
            Ok(name) => name,
            Err(error) => {
                return Err(error);
            },
        };
        let ty = match Type::parse_optional(parser) {
            Ok(ty) => ty,
            Err(error) => {
                return Err(error);
            },
        };
        match parser.consume(&Token::Eq) {
            Ok(_) => {},
            Err(error) => {
                return Err(error);
            },
        }
        let value = match Expression::parse(parser) {
            Ok(value) => value,
            Err(error) => {
                return Err(error);
            },
        };
        let end = match parser.consume(&Token::Semi) {
            Ok(end) => end,
            Err(error) => {
                return Err(error);
            },
        };
        let mutable = def.wrap(matches!(def.value, Token::Let));
        Ok(def.between(&end).wrap(Self { mutable, name, ty, value }))
    }
}

impl StructStatement {
    /// Parses the declaration of a struct.
    pub fn parse(parser: &mut Parser) -> (result: ParseResult<Positioned<Self>>)
        ensures
            match structure(old(parser)@) {
                Ok((value, rest)) => result matches Ok(found) && statement_view(
                    Positioned { value: Statement::Struct(found.value), span: found.span },
                ) == value && final(parser)@ == rest && final(parser)@.len() < old(parser)@.len(),
                Err(stuck) => result matches Err(found) && found@ == stuck.error && final(parser)@
                == stuck.rest,
            },
        decreases old(parser)@.len(), 7nat,
    {
        let start = match parser.consume(&Token::Struct) {
            Ok(start) => start,
            Err(error) => {
                return Err(error);
            },
        };
        let name = match Ident::parse(parser) {
            Ok(name) => name,
            Err(error) => {
                return Err(error);
            },
        };
        let ghost rest = parser@;
        let fields = match parse_fields(parser) {
            Ok(fields) => fields,
            Err(error) => {
                return Err(error);
            },
        };
        proof {
            assert(as_typed_names(list(Listing::Fields, rest)->Ok_0.0.value)
                =~= struct_fields_view(fields.value@));
        }
        Ok(start.between(&fields).wrap(Self { name, fields }))
    }
}

impl RecordStatement {
    /// Parses the declaration of a record.
    pub fn parse(parser: &mut Parser) -> (result: ParseResult<Positioned<Self>>)
        ensures
            match record(old(parser)@) {
                Ok((value, rest)) => result matches Ok(found) && statement_view(
                    Positioned { value: Statement::Record(found.value), span: found.span },
                ) == value && final(parser)@ == rest && final(parser)@.len() < old(parser)@.len(),
                Err(stuck) => result matches Err(found) && found@ == stuck.error && final(parser)@
                == stuck.rest,
            },
        decreases old(parser)@.len(), 7nat,
    {
        let start = match parser.consume(&Token::Record) {
            Ok(start) => start,
            Err(error) => {
                return Err(error);
            },
        };
        let name = match Ident::parse(parser) {
            Ok(name) => name,
            Err(error) => {
                return Err(error);
            },
        };
        let ghost rest = parser@;
        let fields = match parse_types(parser) {
            Ok(fields) => fields,
            Err(error) => {
                return Err(error);
            },
        };
        proof {
            assert(as_types(list(Listing::Types, rest)->Ok_0.0.value) =~= positioned_types_view(
                fields.value@,
            ));
        }
        let end = match parser.consume(&Token::Semi) {
            Ok(end) => end,
            Err(error) => {
                return Err(error);
            },
        };
        Ok(start.between(&end).wrap(Self { name, fields }))
    }
}

impl FuncStatement {
    /// Parses the declaration of a function.
    pub fn parse(parser: &mut Parser) -> (result: ParseResult<Positioned<Self>>)
        ensures
            match function(old(parser)@) {
                Ok((value, rest)) => result matches Ok(found) && statement_view(
                    Positioned { value: Statement::Func(found.value), span: found.span },
                ) == value && final(parser)@ == rest && final(parser)@.len() < old(parser)@.len(),
                Err(stuck) => result matches Err(found) && found@ == stuck.error && final(parser)@
                == stuck.rest,
            },
        decreases old(parser)@.len(), 7nat,
    {
        let start = match parser.consume(&Token::Func) {
            Ok(start) => start,
            Err(error) => {
                return Err(error);
            },
        };
        let name = match Ident::parse(parser) {
            Ok(name) => name,
            Err(error) => {
                return Err(error);
            },
        };
        let ghost rest = parser@;
        let args = match parse_parameters(parser) {
            Ok(args) => args,
            Err(error) => {
                return Err(error);
            },
        };
        proof {
            assert(as_typed_names(list(Listing::Parameters, rest)->Ok_0.0.value)
                =~= func_args_view(args.value@));
        }
        let output_type = match Type::parse_optional(parser) {
            Ok(output_type) => output_type,
            Err(error) => {
                return Err(error);
            },
        };
        let body = match Block::parse(parser) {
            Ok(body) => body,
            Err(error) => {
                return Err(error);
            },
        };
        Ok(start.between(&body).wrap(Self { name, args, output_type, body }))
    }
}

impl ForStatement {
    /// Parses a loop over what an expression gives.
    pub fn parse(parser: &mut Parser) -> (result: ParseResult<Positioned<Self>>)
        ensures
            match for_loop(old(parser)@) {
                Ok((value, rest)) => result matches Ok(found) && statement_view(
                    Positioned { value: Statement::ForIn(found.value), span: found.span },
                ) == value && final(parser)@ == rest && final(parser)@.len() < old(parser)@.len(),
                Err(stuck) => result matches Err(found) && found@ == stuck.error && final(parser)@
                == stuck.rest,
            },
        decreases old(parser)@.len(), 7nat,
    {
        let start = match parser.consume(&Token::For) {
            Ok(start) => start,
            Err(error) => {
                return Err(error);
            },
        };
        let name = match Ident::parse(parser) {
            Ok(name) => name,
            Err(error) => {
                return Err(error);
            },
        };
        match parser.consume(&Token::In) {
            Ok(_) => {},
            Err(error) => {
                return Err(error);
            },
        }
        let target = match Expression::parse(parser) {
            Ok(target) => target,
            Err(error) => {
                return Err(error);
            },
        };
        let body = match Block::parse(parser) {
            Ok(body) => body,
            Err(error) => {
                return Err(error);
            },
        };
        Ok(start.between(&body).wrap(Self { name, target, body }))
    }
}

impl WhileStatement {
    /// Parses a loop that runs while a condition holds.
    pub fn parse(parser: &mut Parser) -> (result: ParseResult<Positioned<Self>>)
        ensures
            match while_loop(old(parser)@) {
                Ok((value, rest)) => result matches Ok(found) && statement_view(
                    Positioned { value: Statement::WhileLoop(found.value), span: found.span },
                ) == value && final(parser)@ == rest && final(parser)@.len() < old(parser)@.len(),
                Err(stuck) => result matches Err(found) && found@ == stuck.error && final(parser)@
                == stuck.rest,
            },
        decreases old(parser)@.len(), 7nat,
    {
        let start = match parser.consume(&Token::While) {
            Ok(start) => start,
            Err(error) => {
                return Err(error);
            },
        };
        let condition = match Expression::parse(parser) {
            Ok(condition) => condition,
            Err(error) => {
                return Err(error);
            },
        };
        let body = match Block::parse(parser) {
            Ok(body) => body,
            Err(error) => {
                return Err(error);
            },
        };
        Ok(start.between(&body).wrap(Self { condition, body }))
    }
}

impl Statement {
    /// Parses a statement, told by its first token.
    pub fn parse(parser: &mut Parser) -> (result: ParseResult<Positioned<Self>>)
        ensures
            match statement(old(parser)@) {
                Ok((value, rest)) => result matches Ok(found) && statement_view(found) == value
                    && final(parser)@ == rest && final(parser)@.len() < old(parser)@.len(),
                Err(stuck) => result matches Err(found) && found@ == stuck.error && final(parser)@
                == stuck.rest,
            },
        decreases old(parser)@.len(), 8nat,
    {
        let kind = match parser.peek() {
            Some(token) => token.value,
            None => Token::EOF,
        };
        match kind {
            Token::Let | Token::Const => match VariableStatement::parse(parser) {
                Ok(value) => Ok(
                    Positioned { value: Statement::Variable(value.value), span: value.span },
                ),
                Err(error) => Err(error),
            },
            Token::Struct => match StructStatement::parse(parser) {
                Ok(value) => Ok(Positioned { value: Statement::Struct(value.value), span: value.span }),
                Err(error) => Err(error),
            },
            Token::Record => match RecordStatement::parse(parser) {
                Ok(value) => Ok(Positioned { value: Statement::Record(value.value), span: value.span }),
                Err(error) => Err(error),
            },
            Token::Func => match FuncStatement::parse(parser) {
                Ok(value) => Ok(Positioned { value: Statement::Func(value.value), span: value.span }),
                Err(error) => Err(error),
            },
            Token::For => match ForStatement::parse(parser) {
                Ok(value) => Ok(Positioned { value: Statement::ForIn(value.value), span: value.span }),
                Err(error) => Err(error),
            },
            Token::While => match WhileStatement::parse(parser) {
                Ok(value) => Ok(
                    Positioned { value: Statement::WhileLoop(value.value), span: value.span },
                ),
                Err(error) => Err(error),
            },
            _ => match Expression::parse(parser) {
                Ok(value) => Ok(
                    Positioned { value: Statement::Expression(value.value), span: value.span },
                ),
                Err(error) => Err(error),
            },
        }
    }
}

/// A construct that is parsed from tokens.
pub trait Parse: Sized {
    /// Whether `result`, with the tokens `rest` left over, is what the grammar
    /// makes of `tokens`.
    spec fn parsed(tokens: Tokens, result: ParseResult<Positioned<Self>>, rest: Tokens) -> bool;

    /// Parses the construct from the tokens that are still to read.
    fn parse(parser: &mut Parser) -> (result: ParseResult<Positioned<Self>>)
        ensures
            Self::parsed(old(parser)@, result, final(parser)@),
    ;

    /// Parses the construct from a text; the token for the end of the text is
    /// taken where it follows. There is nothing to parse where the text holds
    /// an integer that has no token.
    fn parse_value(text: &str) -> (result: Option<ParseResult<Positioned<Self>>>)
        ensures
            match crate::lexer::rules::lexed(text@) {
                None => result is None,
                Some(tokens) => result matches Some(found) && exists|rest: Tokens|
                    Self::parsed(tokens, found, rest),
            },
    {
        match crate::lexer::scan::Lexer::try_parse(text) {
            None => None,
            Some(tokens) => {
                let mut parser = Parser::new(tokens);
                let value = Self::parse(&mut parser);
                let ghost rest = parser@;
                parser.try_consume(&Token::EOF);
                assert(Self::parsed(crate::lexer::rules::lexed(text@)->Some_0, value, rest));
                Some(value)
            },
        }
    }
}

impl Parse for Expression {
    open spec fn parsed(tokens: Tokens, result: ParseResult<Positioned<Self>>, rest: Tokens) -> bool {
        match expression(tokens) {
            Ok((value, after)) => result matches Ok(found) && expression_view(found) == value
                && rest == after,
            Err(stuck) => result matches Err(found) && found@ == stuck.error && rest
                == stuck.rest,
        }
    }

    fn parse(parser: &mut Parser) -> (result: ParseResult<Positioned<Self>>) {
        Expression::parse(parser)
    }
}

impl Parse for Statement {
    open spec fn parsed(tokens: Tokens, result: ParseResult<Positioned<Self>>, rest: Tokens) -> bool {
        match statement(tokens) {
            Ok((value, after)) => result matches Ok(found) && statement_view(found) == value
                && rest == after,
            Err(stuck) => result matches Err(found) && found@ == stuck.error && rest
                == stuck.rest,
        }
    }

    fn parse(parser: &mut Parser) -> (result: ParseResult<Positioned<Self>>) {
        Statement::parse(parser)
    }
}

impl Parse for Block {
    open spec fn parsed(tokens: Tokens, result: ParseResult<Positioned<Self>>, rest: Tokens) -> bool {
        match block(tokens) {
            Ok((value, after)) => result matches Ok(found) && block_view(found) == value && rest
                == after,
            Err(stuck) => result matches Err(found) && found@ == stuck.error && rest
                == stuck.rest,
        }
    }

    fn parse(parser: &mut Parser) -> (result: ParseResult<Positioned<Self>>) {
        Block::parse(parser)
    }
}

impl Parse for Ident {
    open spec fn parsed(tokens: Tokens, result: ParseResult<Positioned<Self>>, rest: Tokens) -> bool {
        match ident(tokens) {
            Ok((value, after)) => result matches Ok(found) && name_view(found) == value && rest
                == after,
            Err(stuck) => result matches Err(found) && found@ == stuck.error && rest
                == stuck.rest,
        }
    }

    fn parse(parser: &mut Parser) -> (result: ParseResult<Positioned<Self>>) {
        Ident::parse(parser)
    }
}

impl Parse for Type {
    open spec fn parsed(tokens: Tokens, result: ParseResult<Positioned<Self>>, rest: Tokens) -> bool {
        match annotation(tokens) {
            Ok((value, after)) => result matches Ok(found) && type_view(found) == value && rest
                == after,
            Err(stuck) => result matches Err(found) && found@ == stuck.error && rest
                == stuck.rest,
        }
    }

    fn parse(parser: &mut Parser) -> (result: ParseResult<Positioned<Self>>) {
        Type::parse(parser)
    }
}

} // verus!
