//! The grammar, as functions from tokens to syntax trees.
//!
//! Each function takes the tokens that are still to read and gives what it read
//! and the tokens behind it, or the error that parsing ends with and the
//! tokens that were still to read then: the first error ends it.
//!
//! A rule that goes on with what another rule left over does so where that is
//! less than what it started with. It always is, since what a rule reads is at
//! least one token; said in the rule, this is what makes the rules end.

use crate::lexer::token::TokenView;
use crate::parser::ast::Operator;
use crate::parser::error::{ParseErrorView, ParseMessageView};
use crate::parser::model::{
    BlockView, ExpressionView, ForStatementView, FuncStatementView, IndexKindView,
    InstanceArgsView, LiteralView, MatchCaseView, MatchVariantView, RecordStatementView,
    StatementView, StructFieldValueView, StructStatementView, TypedNameView,
    VariableStatementView, WhileStatementView,
};
use crate::shared::{Positioned, Span};
use crate::typing::TypeView;
use vstd::prelude::*;

verus! {

pub type Tokens = Seq<Positioned<TokenView>>;

/// Parsing that has ended with an error: the error, and the tokens that were
/// still to read when it was met.
pub ghost struct Stuck {
    pub error: ParseErrorView,
    pub rest: Tokens,
}

/// What was read, and the tokens behind it.
pub type Parsed<T> = Result<(T, Tokens), Stuck>;

/// How tightly an operator binds. An expression behind an operator takes only
/// the operators behind it that bind tighter.
#[derive(Debug, Clone, Copy, PartialEq, Eq, PartialOrd, Ord, Hash, Structural)]
pub enum Precedence {
    PLowest,
    PEquals,
    PLessGreater,
    PSum,
    PProduct,
    PCall,
    PIndex,
}

impl Precedence {
    /// The place of the precedence in the order from loose to tight.
    pub open spec fn rank(self) -> nat {
        match self {
            Precedence::PLowest => 0,
            Precedence::PEquals => 1,
            Precedence::PLessGreater => 2,
            Precedence::PSum => 3,
            Precedence::PProduct => 4,
            Precedence::PCall => 5,
            Precedence::PIndex => 6,
        }
    }

    /// The precedence of a token that stands between two expressions, and the
    /// operator that it is, if it is one.
    pub open spec fn of(token: TokenView) -> (Precedence, Option<Operator>) {
        match token {
            TokenView::Eq => (Precedence::PEquals, Some(Operator::Assign)),
            TokenView::EqEq => (Precedence::PEquals, Some(Operator::Equal)),
            TokenView::NotEq => (Precedence::PEquals, Some(Operator::NotEqual)),
            TokenView::Less => (Precedence::PLessGreater, Some(Operator::LessThan)),
            TokenView::Greater => (Precedence::PLessGreater, Some(Operator::GreaterThan)),
            TokenView::Plus => (Precedence::PSum, Some(Operator::Add)),
            TokenView::Minus => (Precedence::PSum, Some(Operator::Sub)),
            TokenView::Star => (Precedence::PProduct, Some(Operator::Mul)),
            TokenView::Slash => (Precedence::PProduct, Some(Operator::Div)),
            TokenView::ParenOpen => (Precedence::PCall, None),
            TokenView::BracketOpen => (Precedence::PIndex, None),
            TokenView::Dot => (Precedence::PIndex, None),
            _ => (Precedence::PLowest, None),
        }
    }
}

/// How tightly an operator binds.
pub open spec fn binding(operator: Operator) -> Precedence {
    match operator {
        Operator::Assign | Operator::Equal | Operator::NotEqual => Precedence::PEquals,
        Operator::LessThan | Operator::GreaterThan => Precedence::PLessGreater,
        Operator::Add | Operator::Sub => Precedence::PSum,
        Operator::Mul | Operator::Div => Precedence::PProduct,
        Operator::And | Operator::Or => Precedence::PLowest,
    }
}

/// The items of a list of arguments, as items.
pub open spec fn expression_items(values: Seq<Positioned<ExpressionView>>) -> Seq<Positioned<ItemView>> {
    Seq::new(
        values.len(),
        |i: int| Positioned { value: ItemView::Expression(values[i].value), span: values[i].span },
    )
}

pub open spec fn field_value_items(values: Seq<Positioned<StructFieldValueView>>) -> Seq<
    Positioned<ItemView>,
> {
    Seq::new(
        values.len(),
        |i: int| Positioned { value: ItemView::FieldValue(values[i].value), span: values[i].span },
    )
}

pub open spec fn variant_items(values: Seq<Positioned<MatchVariantView>>) -> Seq<Positioned<ItemView>> {
    Seq::new(
        values.len(),
        |i: int| Positioned { value: ItemView::Variant(values[i].value), span: values[i].span },
    )
}

pub open spec fn typed_name_items(values: Seq<Positioned<TypedNameView>>) -> Seq<Positioned<ItemView>> {
    Seq::new(
        values.len(),
        |i: int| Positioned { value: ItemView::TypedName(values[i].value), span: values[i].span },
    )
}

pub open spec fn type_items(values: Seq<Positioned<TypeView>>) -> Seq<Positioned<ItemView>> {
    Seq::new(
        values.len(),
        |i: int| Positioned { value: ItemView::Type(values[i].value), span: values[i].span },
    )
}

/// The next token, if there is one.
pub open spec fn first(tokens: Tokens) -> Option<Positioned<TokenView>> {
    if tokens.len() > 0 {
        Some(tokens[0])
    } else {
        None
    }
}

/// Whether the next token is `token`.
pub open spec fn check(tokens: Tokens, token: TokenView) -> bool {
    tokens.len() > 0 && tokens[0].value == token
}

/// Takes the next token where it is `token`.
pub open spec fn consume(tokens: Tokens, token: TokenView) -> Parsed<Positioned<TokenView>> {
    if check(tokens, token) {
        Ok((tokens[0], tokens.drop_first()))
    } else {
        Err(Stuck { error: ParseErrorView::expected(seq![token], first(tokens)), rest: tokens })
    }
}

/// The tokens without the next one where that is `token`.
pub open spec fn skip(tokens: Tokens, token: TokenView) -> Tokens {
    if check(tokens, token) {
        tokens.drop_first()
    } else {
        tokens
    }
}

/// A name.
pub open spec fn ident(tokens: Tokens) -> Parsed<Positioned<Seq<char>>> {
    match first(tokens) {
        Some(Positioned { value: TokenView::Ident(name), span }) => Ok(
            (Positioned { value: name, span }, tokens.drop_first()),
        ),
        _ => Err(Stuck { error: ParseErrorView::unexpected(first(tokens)), rest: tokens }),
    }
}

/// The type that a name stands for in an annotation.
pub open spec fn base_type(name: Seq<char>) -> Option<TypeView> {
    if name == "int"@ {
        Some(TypeView::Integer)
    } else if name == "float"@ {
        Some(TypeView::Float)
    } else if name == "bool"@ {
        Some(TypeView::Boolean)
    } else if name == "string"@ {
        Some(TypeView::String)
    } else {
        None
    }
}

/// A type in an annotation: `int`, `float`, `bool` or `string`.
pub open spec fn annotation(tokens: Tokens) -> Parsed<Positioned<TypeView>> {
    match first(tokens) {
        Some(Positioned { value: TokenView::Ident(name), span }) => match base_type(name) {
            Some(ty) => Ok((Positioned { value: ty, span }, tokens.drop_first())),
            None => Err(Stuck { error: ParseErrorView::unexpected(first(tokens)), rest: tokens }),
        },
        _ => Err(Stuck { error: ParseErrorView::unexpected(first(tokens)), rest: tokens }),
    }
}

/// A name, a colon and a type.
pub open spec fn typed_name(tokens: Tokens) -> Parsed<Positioned<TypedNameView>> {
    match ident(tokens) {
        Err(stuck) => Err(stuck),
        Ok((name, rest)) => match consume(rest, TokenView::Colon) {
            Err(stuck) => Err(stuck),
            Ok((_, rest)) => match annotation(rest) {
                Err(stuck) => Err(stuck),
                Ok((ty, rest)) => Ok(
                    (
                        Positioned {
                            value: TypedNameView { name, ty },
                            span: name.span.spec_between(ty.span),
                        },
                        rest,
                    ),
                ),
            },
        },
    }
}

/// The type behind a colon, where there is a colon.
pub open spec fn optional_annotation(tokens: Tokens) -> Parsed<Option<Positioned<TypeView>>> {
    if check(tokens, TokenView::Colon) {
        match annotation(tokens.drop_first()) {
            Err(stuck) => Err(stuck),
            Ok((ty, rest)) => Ok((Some(ty), rest)),
        }
    } else {
        Ok((None, tokens))
    }
}

/// A literal: a boolean, a number or a string without interpolations.
pub open spec fn literal(tokens: Tokens) -> Parsed<Positioned<LiteralView>> {
    match first(tokens) {
        Some(Positioned { value: TokenView::Boolean(value), span }) => Ok(
            (Positioned { value: LiteralView::Boolean(value), span }, tokens.drop_first()),
        ),
        Some(Positioned { value: TokenView::Float(value), span }) => Ok(
            (Positioned { value: LiteralView::Float(value), span }, tokens.drop_first()),
        ),
        Some(Positioned { value: TokenView::Integer(value), span }) => Ok(
            (Positioned { value: LiteralView::Integer(value), span }, tokens.drop_first()),
        ),
        Some(Positioned { value: TokenView::String(value), span }) => Ok(
            (Positioned { value: LiteralView::String(value), span }, tokens.drop_first()),
        ),
        _ => Err(Stuck { error: ParseErrorView::unexpected(first(tokens)), rest: tokens }),
    }
}

/// What a property is found by, behind the point: a name, or a number that is
/// not negative.
pub open spec fn index_kind(tokens: Tokens) -> Parsed<Positioned<IndexKindView>> {
    match consume(tokens, TokenView::Dot) {
        Err(stuck) => Err(stuck),
        Ok((_, rest)) => match first(rest) {
            Some(Positioned { value: TokenView::Ident(name), span }) => Ok(
                (Positioned { value: IndexKindView::Ident(name), span }, rest.drop_first()),
            ),
            Some(Positioned { value: TokenView::Integer(value), span }) => if 0 <= value
                <= usize::MAX {
                Ok(
                    (
                        Positioned { value: IndexKindView::Number(value as usize), span },
                        rest.drop_first(),
                    ),
                )
            } else {
                Err(Stuck { error: ParseErrorView::unexpected(first(rest)), rest: rest })
            },
            _ => Err(Stuck { error: ParseErrorView::unexpected(first(rest)), rest: rest }),
        },
    }
}

/// Which list is read: what its items are and what stands around them.
#[derive(Debug, Clone, Copy, PartialEq, Eq, Structural)]
pub enum Listing {
    /// Expressions in parentheses: the arguments of a call, the values of a
    /// record.
    Arguments,
    /// Names with values in braces: the fields of a new struct.
    FieldValues,
    /// The arms of a `match`, in braces.
    Variants,
    /// Names with types in braces: the fields of a struct.
    Fields,
    /// Names with types in parentheses: the parameters of a function.
    Parameters,
    /// Types in parentheses: the fields of a record.
    Types,
}

impl Listing {
    /// The token that opens the list.
    pub open spec fn opening(self) -> TokenView {
        match self {
            Listing::Arguments | Listing::Parameters | Listing::Types => TokenView::ParenOpen,
            _ => TokenView::BraceOpen,
        }
    }

    /// The token that closes the list.
    pub open spec fn closing(self) -> TokenView {
        match self {
            Listing::Arguments | Listing::Parameters | Listing::Types => TokenView::ParenClose,
            _ => TokenView::BraceClose,
        }
    }
}

/// An item of a list.
pub ghost enum ItemView {
    Expression(ExpressionView),
    FieldValue(StructFieldValueView),
    Variant(MatchVariantView),
    TypedName(TypedNameView),
    Type(TypeView),
}

/// The expressions of a list of arguments.
pub open spec fn as_expressions(items: Seq<Positioned<ItemView>>) -> Seq<Positioned<ExpressionView>> {
    Seq::new(items.len(), |i: int| Positioned { value: items[i].value->Expression_0, span: items[i].span })
}

pub open spec fn as_field_values(items: Seq<Positioned<ItemView>>) -> Seq<
    Positioned<StructFieldValueView>,
> {
    Seq::new(items.len(), |i: int| Positioned { value: items[i].value->FieldValue_0, span: items[i].span })
}

pub open spec fn as_variants(items: Seq<Positioned<ItemView>>) -> Seq<Positioned<MatchVariantView>> {
    Seq::new(items.len(), |i: int| Positioned { value: items[i].value->Variant_0, span: items[i].span })
}

pub open spec fn as_typed_names(items: Seq<Positioned<ItemView>>) -> Seq<Positioned<TypedNameView>> {
    Seq::new(items.len(), |i: int| Positioned { value: items[i].value->TypedName_0, span: items[i].span })
}

pub open spec fn as_types(items: Seq<Positioned<ItemView>>) -> Seq<Positioned<TypeView>> {
    Seq::new(items.len(), |i: int| Positioned { value: items[i].value->Type_0, span: items[i].span })
}

/// An expression: a primary one, and behind it the operators, calls and
/// properties that bind tighter than nothing at all.
pub open spec fn expression(tokens: Tokens) -> Parsed<Positioned<ExpressionView>>
    decreases tokens.len(), 6nat,
{
    tighter(tokens, Precedence::PLowest)
}

/// An expression that takes only what binds tighter than `threshold`.
pub open spec fn tighter(tokens: Tokens, threshold: Precedence) -> Parsed<Positioned<ExpressionView>>
    decreases tokens.len(), 5nat,
{
    match primary(tokens) {
        Err(stuck) => Err(stuck),
        Ok((left, rest)) => if rest.len() < tokens.len() {
            infix(rest, threshold, left)
        } else {
            Err(Stuck { error: ParseErrorView::unexpected(first(tokens)), rest: tokens })
        },
    }
}

/// What follows the expression `left`: as long as the next token binds
/// tighter than `threshold`, it is taken. A parenthesis makes `left` the
/// target of a call, a point makes it the target of a property, and an operator
/// makes it the left side of a binary expression whose right side takes only
/// what binds tighter than the operator, so that operators of one precedence
/// group to the left.
pub open spec fn infix(tokens: Tokens, threshold: Precedence, left: Positioned<ExpressionView>) -> Parsed<
    Positioned<ExpressionView>,
>
    decreases tokens.len(), 2nat,
{
    match first(tokens) {
        None => Ok((left, tokens)),
        Some(token) => {
            let (precedence, operator) = Precedence::of(token.value);
            if precedence.rank() <= threshold.rank() {
                Ok((left, tokens))
            } else if precedence == Precedence::PCall {
                match list(Listing::Arguments, tokens) {
                    Err(stuck) => Err(stuck),
                    Ok((args, rest)) => if rest.len() < tokens.len() {
                        infix(
                            rest,
                            threshold,
                            Positioned {
                                value: ExpressionView::FunctionCall {
                                    target: Box::new(left),
                                    args: Positioned {
                                        value: as_expressions(args.value),
                                        span: args.span,
                                    },
                                },
                                span: left.span.spec_between(args.span),
                            },
                        )
                    } else {
                        Err(Stuck { error: ParseErrorView::unexpected(first(tokens)), rest: tokens })
                    },
                }
            } else if precedence == Precedence::PIndex {
                match index_kind(tokens) {
                    Err(stuck) => Err(stuck),
                    Ok((index, rest)) => if rest.len() < tokens.len() {
                        infix(
                            rest,
                            threshold,
                            Positioned {
                                value: ExpressionView::Index { object: Box::new(left), index },
                                span: left.span.spec_between(index.span),
                            },
                        )
                    } else {
                        Err(Stuck { error: ParseErrorView::unexpected(first(tokens)), rest: tokens })
                    },
                }
            } else {
                match operator {
                    None => Ok((left, tokens)),
                    Some(operator) => match tighter(tokens.drop_first(), precedence) {
                        Err(stuck) => Err(stuck),
                        Ok((right, rest)) => if rest.len() < tokens.len() {
                            infix(
                                rest,
                                threshold,
                                Positioned {
                                    value: ExpressionView::Binary {
                                        lhs: Box::new(left),
                                        rhs: Box::new(right),
                                        operator: Positioned { value: operator, span: token.span },
                                    },
                                    span: left.span.spec_between(right.span),
                                },
                            )
                        } else {
                            Err(Stuck { error: ParseErrorView::unexpected(first(tokens)), rest: tokens })
                        },
                    },
                }
            }
        },
    }
}

/// An expression that starts with no other one: a literal, a name, a block, a
/// conditional, a `match`, a new instance, or an expression in parentheses.
pub open spec fn primary(tokens: Tokens) -> Parsed<Positioned<ExpressionView>>
    decreases tokens.len(), 4nat,
{
    match first(tokens) {
        None => Err(Stuck { error: ParseErrorView::unexpected(None), rest: tokens }),
        Some(token) => match token.value {
            TokenView::Boolean(_) | TokenView::Float(_) | TokenView::Integer(_) | TokenView::String(
                _,
            ) => match literal(tokens) {
                Err(stuck) => Err(stuck),
                Ok((value, rest)) => Ok(
                    (
                        Positioned { value: ExpressionView::Literal(value.value), span: value.span },
                        rest,
                    ),
                ),
            },
            TokenView::Ident(name) => Ok(
                (Positioned { value: ExpressionView::Ident(name), span: token.span }, tokens.drop_first()),
            ),
            TokenView::New => new_instance(tokens),
            TokenView::Match => matching(tokens),
            TokenView::If => conditional(tokens),
            TokenView::BraceOpen => match block(tokens) {
                Err(stuck) => Err(stuck),
                Ok((value, rest)) => Ok(
                    (Positioned { value: ExpressionView::Block(value.value), span: value.span }, rest),
                ),
            },
            TokenView::ParenOpen => match expression(tokens.drop_first()) {
                Err(stuck) => Err(stuck),
                Ok((inner, rest)) => match consume(rest, TokenView::ParenClose) {
                    Err(stuck) => Err(stuck),
                    Ok((close, rest)) => Ok(
                        (
                            Positioned {
                                value: inner.value,
                                span: token.span.spec_between(close.span),
                            },
                            rest,
                        ),
                    ),
                },
            },
            _ => Err(Stuck { error: ParseErrorView::unexpected(first(tokens)), rest: tokens }),
        },
    }
}

/// `new`, a name, and the values of a struct in braces or those of a record in
/// parentheses.
pub open spec fn new_instance(tokens: Tokens) -> Parsed<Positioned<ExpressionView>>
    decreases tokens.len(), 3nat,
{
    match consume(tokens, TokenView::New) {
        Err(stuck) => Err(stuck),
        Ok((start, rest)) => match ident(rest) {
            Err(stuck) => Err(stuck),
            Ok((class, rest)) => if check(rest, TokenView::BraceOpen) {
                match list(Listing::FieldValues, rest) {
                    Err(stuck) => Err(stuck),
                    Ok((fields, rest)) => Ok(
                        (
                            Positioned {
                                value: ExpressionView::NewInstance {
                                    class,
                                    values: Positioned {
                                        value: InstanceArgsView::Struct(
                                            as_field_values(fields.value),
                                        ),
                                        span: fields.span,
                                    },
                                },
                                span: start.span.spec_between(fields.span),
                            },
                            rest,
                        ),
                    ),
                }
            } else {
                match list(Listing::Arguments, rest) {
                    Err(stuck) => Err(stuck),
                    Ok((values, rest)) => Ok(
                        (
                            Positioned {
                                value: ExpressionView::NewInstance {
                                    class,
                                    values: Positioned {
                                        value: InstanceArgsView::Record(
                                            as_expressions(values.value),
                                        ),
                                        span: values.span,
                                    },
                                },
                                span: start.span.spec_between(values.span),
                            },
                            rest,
                        ),
                    ),
                }
            },
        },
    }
}

/// `match`, what is matched, and the arms in braces.
pub open spec fn matching(tokens: Tokens) -> Parsed<Positioned<ExpressionView>>
    decreases tokens.len(), 3nat,
{
    match consume(tokens, TokenView::Match) {
        Err(stuck) => Err(stuck),
        Ok((start, rest)) => match expression(rest) {
            Err(stuck) => Err(stuck),
            Ok((scrutinee, rest)) => if rest.len() < tokens.len() {
                match list(Listing::Variants, rest) {
                    Err(stuck) => Err(stuck),
                    Ok((variants, rest)) => Ok(
                        (
                            Positioned {
                                value: ExpressionView::Match {
                                    scrutinee: Box::new(scrutinee),
                                    variants: as_variants(variants.value),
                                },
                                span: start.span.spec_between(variants.span),
                            },
                            rest,
                        ),
                    ),
                }
            } else {
                Err(Stuck { error: ParseErrorView::unexpected(first(tokens)), rest: tokens })
            },
        },
    }
}

/// `if`, a condition, a block, and where `else` follows, another conditional
/// or a block.
pub open spec fn conditional(tokens: Tokens) -> Parsed<Positioned<ExpressionView>>
    decreases tokens.len(), 3nat,
{
    match consume(tokens, TokenView::If) {
        Err(stuck) => Err(stuck),
        Ok((start, rest)) => match expression(rest) {
            Err(stuck) => Err(stuck),
            Ok((condition, rest)) => if rest.len() < tokens.len() {
                match block(rest) {
                    Err(stuck) => Err(stuck),
                    Ok((taken, rest)) => if !check(rest, TokenView::Else) {
                        Ok(
                            (
                                Positioned {
                                    value: ExpressionView::IfElse {
                                        condition: Box::new(condition),
                                        block: taken,
                                        else_block: None,
                                    },
                                    span: start.span.spec_between(taken.span),
                                },
                                rest,
                            ),
                        )
                    } else if rest.len() < tokens.len() {
                        let other = if check(rest.drop_first(), TokenView::If) {
                            conditional(rest.drop_first())
                        } else {
                            match block(rest.drop_first()) {
                                Err(stuck) => Err(stuck),
                                Ok((value, rest)) => Ok(
                                    (
                                        Positioned {
                                            value: ExpressionView::Block(value.value),
                                            span: value.span,
                                        },
                                        rest,
                                    ),
                                ),
                            }
                        };
                        match other {
                            Err(stuck) => Err(stuck),
                            Ok((other, rest)) => Ok(
                                (
                                    Positioned {
                                        value: ExpressionView::IfElse {
                                            condition: Box::new(condition),
                                            block: taken,
                                            else_block: Some(Box::new(other)),
                                        },
                                        span: start.span.spec_between(other.span),
                                    },
                                    rest,
                                ),
                            ),
                        }
                    } else {
                        Err(Stuck { error: ParseErrorView::unexpected(first(tokens)), rest: tokens })
                    },
                }
            } else {
                Err(Stuck { error: ParseErrorView::unexpected(first(tokens)), rest: tokens })
            },
        },
    }
}

/// Statements in braces.
pub open spec fn block(tokens: Tokens) -> Parsed<Positioned<BlockView>>
    decreases tokens.len(), 3nat,
{
    match consume(tokens, TokenView::BraceOpen) {
        Err(stuck) => Err(stuck),
        Ok((from, rest)) => match statements_until(
            rest,
            TokenView::BraceClose,
            Seq::empty(),
            None,
        ) {
            Err(stuck) => Err(stuck),
            Ok(((statements, return_statement), rest)) => match consume(rest, TokenView::BraceClose) {
                Err(stuck) => Err(stuck),
                Ok((to, rest)) => Ok(
                    (
                        Positioned {
                            value: BlockView {
                                statements,
                                return_statement: match return_statement {
                                    Some(statement) => Some(Box::new(statement)),
                                    None => None,
                                },
                            },
                            span: from.span.spec_between(to.span),
                        },
                        rest,
                    ),
                ),
            },
        },
    }
}

/// Whether a statement is complete without a semicolon behind it.
pub open spec fn stands_alone(statement: StatementView) -> bool {
    statement is Variable || statement is ForIn || statement is WhileLoop || statement is Record
        || statement is Struct || statement is Func
}

/// The error for an expression without a semicolon that is not the last thing
/// in its block.
pub open spec fn missing_semicolon(at: Span) -> ParseErrorView {
    ParseErrorView { message: ParseMessageView::Text("missing ;"@), span: Some(at) }
}

/// Statements up to the token `until`, which is not taken, behind the
/// `statements` read before. An expression without a semicolon behind it ends
/// the statements and gives them their value; nothing may follow it.
pub open spec fn statements_until(
    tokens: Tokens,
    until: TokenView,
    statements: Seq<Positioned<StatementView>>,
    return_statement: Option<Positioned<StatementView>>,
) -> Parsed<(Seq<Positioned<StatementView>>, Option<Positioned<StatementView>>)>
    decreases tokens.len(), 9nat,
{
    if check(tokens, until) {
        Ok(((statements, return_statement), tokens))
    } else {
        match statement(tokens) {
            Err(stuck) => Err(stuck),
            Ok((read, rest)) => {
                let ended = check(rest, TokenView::Semi) || stands_alone(read.value);
                let rest = skip(rest, TokenView::Semi);
                match return_statement {
                    Some(last) => Err(Stuck { error: missing_semicolon(last.span), rest }),
                    None => if rest.len() < tokens.len() {
                        if ended {
                            statements_until(rest, until, statements.push(read), None)
                        } else {
                            statements_until(rest, until, statements, Some(read))
                        }
                    } else {
                        Err(Stuck { error: ParseErrorView::unexpected(first(tokens)), rest: tokens })
                    },
                }
            },
        }
    }
}

/// A statement, told by its first token: a declaration of a variable, a struct,
/// a record or a function, a loop, or else an expression.
pub open spec fn statement(tokens: Tokens) -> Parsed<Positioned<StatementView>>
    decreases tokens.len(), 8nat,
{
    match first(tokens) {
        Some(Positioned { value: TokenView::Let, .. }) | Some(
            Positioned { value: TokenView::Const, .. },
        ) => variable(tokens),
        Some(Positioned { value: TokenView::Struct, .. }) => structure(tokens),
        Some(Positioned { value: TokenView::Record, .. }) => record(tokens),
        Some(Positioned { value: TokenView::Func, .. }) => function(tokens),
        Some(Positioned { value: TokenView::For, .. }) => for_loop(tokens),
        Some(Positioned { value: TokenView::While, .. }) => while_loop(tokens),
        _ => match expression(tokens) {
            Err(stuck) => Err(stuck),
            Ok((value, rest)) => Ok(
                (Positioned { value: StatementView::Expression(value.value), span: value.span }, rest),
            ),
        },
    }
}

/// `let` or `const`, a name, a type where a colon follows, `=`, a value and a
/// semicolon.
pub open spec fn variable(tokens: Tokens) -> Parsed<Positioned<StatementView>>
    decreases tokens.len(), 7nat,
{
    if !(check(tokens, TokenView::Let) || check(tokens, TokenView::Const)) {
        Err(Stuck { error: ParseErrorView::expected(seq![TokenView::Let, TokenView::Const], first(tokens)), rest: tokens })
    } else {
        let def = tokens[0];
        match ident(tokens.drop_first()) {
            Err(stuck) => Err(stuck),
            Ok((name, rest)) => match optional_annotation(rest) {
                Err(stuck) => Err(stuck),
                Ok((ty, rest)) => match consume(rest, TokenView::Eq) {
                    Err(stuck) => Err(stuck),
                    Ok((_, rest)) => match expression(rest) {
                        Err(stuck) => Err(stuck),
                        Ok((value, rest)) => match consume(rest, TokenView::Semi) {
                            Err(stuck) => Err(stuck),
                            Ok((end, rest)) => Ok(
                                (
                                    Positioned {
                                        value: StatementView::Variable(
                                            VariableStatementView {
                                                mutable: Positioned {
                                                    value: def.value == TokenView::Let,
                                                    span: def.span,
                                                },
                                                name,
                                                ty,
                                                value,
                                            },
                                        ),
                                        span: def.span.spec_between(end.span),
                                    },
                                    rest,
                                ),
                            ),
                        },
                    },
                },
            },
        }
    }
}

/// `struct`, a name, and the fields in braces.
pub open spec fn structure(tokens: Tokens) -> Parsed<Positioned<StatementView>>
    decreases tokens.len(), 7nat,
{
    match consume(tokens, TokenView::Struct) {
        Err(stuck) => Err(stuck),
        Ok((start, rest)) => match ident(rest) {
            Err(stuck) => Err(stuck),
            Ok((name, rest)) => match list(Listing::Fields, rest) {
                Err(stuck) => Err(stuck),
                Ok((fields, rest)) => Ok(
                    (
                        Positioned {
                            value: StatementView::Struct(
                                StructStatementView {
                                    name,
                                    fields: Positioned {
                                        value: as_typed_names(fields.value),
                                        span: fields.span,
                                    },
                                },
                            ),
                            span: start.span.spec_between(fields.span),
                        },
                        rest,
                    ),
                ),
            },
        },
    }
}

/// `record`, a name, the types of the fields in parentheses, and a semicolon.
pub open spec fn record(tokens: Tokens) -> Parsed<Positioned<StatementView>>
    decreases tokens.len(), 7nat,
{
    match consume(tokens, TokenView::Record) {
        Err(stuck) => Err(stuck),
        Ok((start, rest)) => match ident(rest) {
            Err(stuck) => Err(stuck),
            Ok((name, rest)) => match list(Listing::Types, rest) {
                Err(stuck) => Err(stuck),
                Ok((fields, rest)) => match consume(rest, TokenView::Semi) {
                    Err(stuck) => Err(stuck),
                    Ok((end, rest)) => Ok(
                        (
                            Positioned {
                                value: StatementView::Record(
                                    RecordStatementView {
                                        name,
                                        fields: Positioned {
                                            value: as_types(fields.value),
                                            span: fields.span,
                                        },
                                    },
                                ),
                                span: start.span.spec_between(end.span),
                            },
                            rest,
                        ),
                    ),
                },
            },
        },
    }
}

/// `func`, a name, the parameters in parentheses, the type of the result where
/// a colon follows, and the body.
pub open spec fn function(tokens: Tokens) -> Parsed<Positioned<StatementView>>
    decreases tokens.len(), 7nat,
{
    match consume(tokens, TokenView::Func) {
        Err(stuck) => Err(stuck),
        Ok((start, rest)) => match ident(rest) {
            Err(stuck) => Err(stuck),
            Ok((name, rest)) => match list(Listing::Parameters, rest) {
                Err(stuck) => Err(stuck),
                Ok((args, rest)) => match optional_annotation(rest) {
                    Err(stuck) => Err(stuck),
                    Ok((output_type, rest)) => if rest.len() < tokens.len() {
                        match block(rest) {
                            Err(stuck) => Err(stuck),
                            Ok((body, rest)) => Ok(
                                (
                                    Positioned {
                                        value: StatementView::Func(
                                            FuncStatementView {
                                                name,
                                                args: Positioned {
                                                    value: as_typed_names(args.value),
                                                    span: args.span,
                                                },
                                                output_type,
                                                body,
                                            },
                                        ),
                                        span: start.span.spec_between(body.span),
                                    },
                                    rest,
                                ),
                            ),
                        }
                    } else {
                        Err(Stuck { error: ParseErrorView::unexpected(first(tokens)), rest: tokens })
                    },
                },
            },
        },
    }
}

/// `for`, a name, `in`, what is gone through, and the body.
pub open spec fn for_loop(tokens: Tokens) -> Parsed<Positioned<StatementView>>
    decreases tokens.len(), 7nat,
{
    match consume(tokens, TokenView::For) {
        Err(stuck) => Err(stuck),
        Ok((start, rest)) => match ident(rest) {
            Err(stuck) => Err(stuck),
            Ok((name, rest)) => match consume(rest, TokenView::In) {
                Err(stuck) => Err(stuck),
                Ok((_, rest)) => match expression(rest) {
                    Err(stuck) => Err(stuck),
                    Ok((target, rest)) => if rest.len() < tokens.len() {
                        match block(rest) {
                            Err(stuck) => Err(stuck),
                            Ok((body, rest)) => Ok(
                                (
                                    Positioned {
                                        value: StatementView::ForIn(
                                            ForStatementView { name, target, body },
                                        ),
                                        span: start.span.spec_between(body.span),
                                    },
                                    rest,
                                ),
                            ),
                        }
                    } else {
                        Err(Stuck { error: ParseErrorView::unexpected(first(tokens)), rest: tokens })
                    },
                },
            },
        },
    }
}

/// `while`, a condition, and the body.
pub open spec fn while_loop(tokens: Tokens) -> Parsed<Positioned<StatementView>>
    decreases tokens.len(), 7nat,
{
    match consume(tokens, TokenView::While) {
        Err(stuck) => Err(stuck),
        Ok((start, rest)) => match expression(rest) {
            Err(stuck) => Err(stuck),
            Ok((condition, rest)) => if rest.len() < tokens.len() {
                match block(rest) {
                    Err(stuck) => Err(stuck),
                    Ok((body, rest)) => Ok(
                        (
                            Positioned {
                                value: StatementView::WhileLoop(
                                    WhileStatementView { condition, body },
                                ),
                                span: start.span.spec_between(body.span),
                            },
                            rest,
                        ),
                    ),
                }
            } else {
                Err(Stuck { error: ParseErrorView::unexpected(first(tokens)), rest: tokens })
            },
        },
    }
}

/// An item of a list.
pub open spec fn item(kind: Listing, tokens: Tokens) -> Parsed<Positioned<ItemView>>
    decreases tokens.len(), 10nat,
{
    match kind {
        Listing::Arguments => match expression(tokens) {
            Err(stuck) => Err(stuck),
            Ok((value, rest)) => Ok(
                (Positioned { value: ItemView::Expression(value.value), span: value.span }, rest),
            ),
        },
        Listing::FieldValues => match ident(tokens) {
            Err(stuck) => Err(stuck),
            Ok((name, rest)) => match consume(rest, TokenView::Colon) {
                Err(stuck) => Err(stuck),
                Ok((_, rest)) => match expression(rest) {
                    Err(stuck) => Err(stuck),
                    Ok((value, rest)) => Ok(
                        (
                            Positioned {
                                value: ItemView::FieldValue(StructFieldValueView { name, value }),
                                span: name.span.spec_between(value.span),
                            },
                            rest,
                        ),
                    ),
                },
            },
        },
        Listing::Variants => {
            let case: Parsed<Positioned<MatchCaseView>> = match first(tokens) {
                Some(Positioned { value: TokenView::Ident(name), span }) => Ok(
                    (Positioned { value: MatchCaseView::Ident(name), span }, tokens.drop_first()),
                ),
                _ => match expression(tokens) {
                    Err(stuck) => Err(stuck),
                    Ok((value, rest)) => Ok(
                        (
                            Positioned { value: MatchCaseView::Value(value.value), span: value.span },
                            rest,
                        ),
                    ),
                },
            };
            match case {
                Err(stuck) => Err(stuck),
                Ok((case, rest)) => match consume(rest, TokenView::FatArrow) {
                    Err(stuck) => Err(stuck),
                    Ok((_, rest)) => if rest.len() < tokens.len() {
                        match expression(rest) {
                            Err(stuck) => Err(stuck),
                            Ok((body, rest)) => Ok(
                                (
                                    Positioned {
                                        value: ItemView::Variant(MatchVariantView { case, body }),
                                        span: case.span.spec_between(body.span),
                                    },
                                    rest,
                                ),
                            ),
                        }
                    } else {
                        Err(Stuck { error: ParseErrorView::unexpected(first(tokens)), rest: tokens })
                    },
                },
            }
        },
        Listing::Fields | Listing::Parameters => match typed_name(tokens) {
            Err(stuck) => Err(stuck),
            Ok((value, rest)) => Ok(
                (Positioned { value: ItemView::TypedName(value.value), span: value.span }, rest),
            ),
        },
        Listing::Types => match annotation(tokens) {
            Err(stuck) => Err(stuck),
            Ok((value, rest)) => Ok(
                (Positioned { value: ItemView::Type(value.value), span: value.span }, rest),
            ),
        },
    }
}

/// The items of a list behind the items `read` before, up to the token that
/// closes the list, which is not taken. A comma follows each item but the last,
/// and may follow the last one too.
pub open spec fn items(kind: Listing, tokens: Tokens, read: Seq<Positioned<ItemView>>) -> Parsed<
    Seq<Positioned<ItemView>>,
>
    decreases tokens.len(), 11nat,
{
    if check(tokens, kind.closing()) {
        Ok((read, tokens))
    } else {
        match item(kind, tokens) {
            Err(stuck) => Err(stuck),
            Ok((value, rest)) => {
                let parted: Parsed<()> = if check(rest, kind.closing()) {
                    Ok(((), rest))
                } else {
                    match consume(rest, TokenView::Comma) {
                        Err(stuck) => Err(stuck),
                        Ok((_, rest)) => Ok(((), rest)),
                    }
                };
                match parted {
                    Err(stuck) => Err(stuck),
                    Ok((_, rest)) => if rest.len() < tokens.len() {
                        items(kind, rest, read.push(value))
                    } else {
                        Err(Stuck { error: ParseErrorView::unexpected(first(tokens)), rest: tokens })
                    },
                }
            },
        }
    }
}

/// A list: the token that opens it, its items, and the token that closes it.
/// The span goes from the one to the other.
pub open spec fn list(kind: Listing, tokens: Tokens) -> Parsed<Positioned<Seq<Positioned<ItemView>>>>
    decreases tokens.len(), 1nat,
{
    match consume(tokens, kind.opening()) {
        Err(stuck) => Err(stuck),
        Ok((from, rest)) => match items(kind, rest, Seq::empty()) {
            Err(stuck) => Err(stuck),
            Ok((read, rest)) => match consume(rest, kind.closing()) {
                Err(stuck) => Err(stuck),
                Ok((to, rest)) => Ok(
                    (Positioned { value: read, span: from.span.spec_between(to.span) }, rest),
                ),
            },
        },
    }
}

/// A whole program: statements up to the token for the end.
pub open spec fn program(tokens: Tokens) -> Parsed<
    (Seq<Positioned<StatementView>>, Option<Positioned<StatementView>>),
> {
    statements_until(tokens, TokenView::EOF, Seq::empty(), None)
}

} // verus!
