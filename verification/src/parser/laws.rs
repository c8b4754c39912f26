//! What holds of everything that the grammar reads.

use crate::lexer::token::TokenView;
use crate::parser::model::ExpressionView;
use crate::parser::rules::{
    block, conditional, consume, expression, for_loop, function, ident, index_kind, infix, item,
    items, list, matching, new_instance, optional_annotation, primary, program, record, statement,
    statements_until, structure, tighter, variable, while_loop, ItemView, Listing, Precedence,
    Tokens,
};
use crate::parser::model::StatementView;
use crate::shared::Positioned;
use vstd::prelude::*;

verus! {

/// What an expression leaves over is less than it started with, and so it is
/// with everything else that is read as a whole: each takes at least one token.
pub proof fn lemma_expression_takes(tokens: Tokens)
    requires
        expression(tokens) is Ok,
    ensures
        expression(tokens)->Ok_0.1.len() < tokens.len(),
    decreases tokens.len(), 6nat,
{
    lemma_tighter_takes(tokens, Precedence::PLowest);
}

pub proof fn lemma_tighter_takes(tokens: Tokens, threshold: Precedence)
    requires
        tighter(tokens, threshold) is Ok,
    ensures
        tighter(tokens, threshold)->Ok_0.1.len() < tokens.len(),
    decreases tokens.len(), 5nat,
{
    let read = primary(tokens)->Ok_0;
    lemma_infix_takes(read.1, threshold, read.0);
}

/// What follows an expression may be nothing at all.
pub proof fn lemma_infix_takes(tokens: Tokens, threshold: Precedence, left: Positioned<ExpressionView>)
    requires
        infix(tokens, threshold, left) is Ok,
    ensures
        infix(tokens, threshold, left)->Ok_0.1.len() <= tokens.len(),
    decreases tokens.len(), 2nat,
{
    if tokens.len() > 0 {
        let token = tokens[0];
        let (precedence, operator) = Precedence::of(token.value);
        if precedence.rank() <= threshold.rank() {
        } else if precedence == Precedence::PCall {
            let read = list(Listing::Arguments, tokens)->Ok_0;
            lemma_infix_takes(
                read.1,
                threshold,
                Positioned {
                    value: ExpressionView::FunctionCall {
                        target: Box::new(left),
                        args: Positioned {
                            value: crate::parser::rules::as_expressions(read.0.value),
                            span: read.0.span,
                        },
                    },
                    span: left.span.spec_between(read.0.span),
                },
            );
        } else if precedence == Precedence::PIndex {
            let read = index_kind(tokens)->Ok_0;
            lemma_infix_takes(
                read.1,
                threshold,
                Positioned {
                    value: ExpressionView::Index { object: Box::new(left), index: read.0 },
                    span: left.span.spec_between(read.0.span),
                },
            );
        } else {
            match operator {
                None => {},
                Some(operator) => {
                    let read = tighter(tokens.drop_first(), precedence)->Ok_0;
                    lemma_infix_takes(
                        read.1,
                        threshold,
                        Positioned {
                            value: ExpressionView::Binary {
                                lhs: Box::new(left),
                                rhs: Box::new(read.0),
                                operator: Positioned { value: operator, span: token.span },
                            },
                            span: left.span.spec_between(read.0.span),
                        },
                    );
                },
            }
        }
    }
}

pub proof fn lemma_primary_takes(tokens: Tokens)
    requires
        primary(tokens) is Ok,
    ensures
        primary(tokens)->Ok_0.1.len() < tokens.len(),
    decreases tokens.len(), 4nat,
{
    match tokens[0].value {
        TokenView::New => lemma_new_instance_takes(tokens),
        TokenView::Match => lemma_matching_takes(tokens),
        TokenView::If => lemma_conditional_takes(tokens),
        TokenView::BraceOpen => lemma_block_takes(tokens),
        TokenView::ParenOpen => lemma_expression_takes(tokens.drop_first()),
        _ => {},
    }
}

pub proof fn lemma_new_instance_takes(tokens: Tokens)
    requires
        new_instance(tokens) is Ok,
    ensures
        new_instance(tokens)->Ok_0.1.len() < tokens.len(),
    decreases tokens.len(), 3nat,
{
    let rest = ident(tokens.drop_first())->Ok_0.1;
    if crate::parser::rules::check(rest, TokenView::BraceOpen) {
        lemma_list_takes(Listing::FieldValues, rest);
    } else {
        lemma_list_takes(Listing::Arguments, rest);
    }
}

pub proof fn lemma_matching_takes(tokens: Tokens)
    requires
        matching(tokens) is Ok,
    ensures
        matching(tokens)->Ok_0.1.len() < tokens.len(),
    decreases tokens.len(), 3nat,
{
    let rest = expression(tokens.drop_first())->Ok_0.1;
    lemma_list_takes(Listing::Variants, rest);
}

pub proof fn lemma_conditional_takes(tokens: Tokens)
    requires
        conditional(tokens) is Ok,
    ensures
        conditional(tokens)->Ok_0.1.len() < tokens.len(),
    decreases tokens.len(), 3nat,
{
    let tested = expression(tokens.drop_first())->Ok_0.1;
    let taken = block(tested)->Ok_0.1;
    lemma_block_takes(tested);
    if crate::parser::rules::check(taken, TokenView::Else) {
        if crate::parser::rules::check(taken.drop_first(), TokenView::If) {
            lemma_conditional_takes(taken.drop_first());
        } else {
            lemma_block_takes(taken.drop_first());
        }
    }
}

pub proof fn lemma_block_takes(tokens: Tokens)
    requires
        block(tokens) is Ok,
    ensures
        block(tokens)->Ok_0.1.len() < tokens.len(),
    decreases tokens.len(), 3nat,
{
    lemma_statements_take(tokens.drop_first(), TokenView::BraceClose, Seq::empty(), None);
}

/// Statements may be none at all.
pub proof fn lemma_statements_take(
    tokens: Tokens,
    until: TokenView,
    statements: Seq<Positioned<StatementView>>,
    return_statement: Option<Positioned<StatementView>>,
)
    requires
        statements_until(tokens, until, statements, return_statement) is Ok,
    ensures
        statements_until(tokens, until, statements, return_statement)->Ok_0.1.len() <= tokens.len(),
    decreases tokens.len(), 9nat,
{
    if !crate::parser::rules::check(tokens, until) {
        let read = statement(tokens)->Ok_0;
        let ended = crate::parser::rules::check(read.1, TokenView::Semi)
            || crate::parser::rules::stands_alone(read.0.value);
        let rest = crate::parser::rules::skip(read.1, TokenView::Semi);
        if ended {
            lemma_statements_take(rest, until, statements.push(read.0), None);
        } else {
            lemma_statements_take(rest, until, statements, Some(read.0));
        }
    }
}

pub proof fn lemma_statement_takes(tokens: Tokens)
    requires
        statement(tokens) is Ok,
    ensures
        statement(tokens)->Ok_0.1.len() < tokens.len(),
    decreases tokens.len(), 8nat,
{
    if tokens.len() > 0 {
        match tokens[0].value {
            TokenView::Let | TokenView::Const => lemma_variable_takes(tokens),
            TokenView::Struct => lemma_list_after_name_takes(tokens),
            TokenView::Record => lemma_list_after_name_takes(tokens),
            TokenView::Func => lemma_function_takes(tokens),
            TokenView::For => lemma_for_takes(tokens),
            TokenView::While => lemma_while_takes(tokens),
            _ => lemma_expression_takes(tokens),
        }
    } else {
        lemma_expression_takes(tokens);
    }
}

pub proof fn lemma_variable_takes(tokens: Tokens)
    requires
        variable(tokens) is Ok,
    ensures
        variable(tokens)->Ok_0.1.len() < tokens.len(),
    decreases tokens.len(), 7nat,
{
    let named = ident(tokens.drop_first())->Ok_0.1;
    let typed = optional_annotation(named)->Ok_0.1;
    let valued = consume(typed, TokenView::Eq)->Ok_0.1;
    lemma_expression_takes(valued);
}

/// The declarations of a struct and of a record are a keyword, a name and a
/// list.
pub proof fn lemma_list_after_name_takes(tokens: Tokens)
    requires
        tokens.len() > 0,
        tokens[0].value == TokenView::Struct || tokens[0].value == TokenView::Record,
        statement(tokens) is Ok,
    ensures
        statement(tokens)->Ok_0.1.len() < tokens.len(),
    decreases tokens.len(), 7nat,
{
    let named = ident(tokens.drop_first())->Ok_0.1;
    if tokens[0].value == TokenView::Struct {
        assert(statement(tokens) == structure(tokens));
        lemma_list_takes(Listing::Fields, named);
    } else {
        assert(statement(tokens) == record(tokens));
        lemma_list_takes(Listing::Types, named);
    }
}

pub proof fn lemma_function_takes(tokens: Tokens)
    requires
        function(tokens) is Ok,
    ensures
        function(tokens)->Ok_0.1.len() < tokens.len(),
    decreases tokens.len(), 7nat,
{
    let named = ident(tokens.drop_first())->Ok_0.1;
    let listed = list(Listing::Parameters, named)->Ok_0.1;
    let typed = optional_annotation(listed)->Ok_0.1;
    lemma_block_takes(typed);
}

pub proof fn lemma_for_takes(tokens: Tokens)
    requires
        for_loop(tokens) is Ok,
    ensures
        for_loop(tokens)->Ok_0.1.len() < tokens.len(),
    decreases tokens.len(), 7nat,
{
    let named = ident(tokens.drop_first())->Ok_0.1;
    let target = consume(named, TokenView::In)->Ok_0.1;
    let read = expression(target)->Ok_0.1;
    lemma_block_takes(read);
}

pub proof fn lemma_while_takes(tokens: Tokens)
    requires
        while_loop(tokens) is Ok,
    ensures
        while_loop(tokens)->Ok_0.1.len() < tokens.len(),
    decreases tokens.len(), 7nat,
{
    let read = expression(tokens.drop_first())->Ok_0.1;
    lemma_block_takes(read);
}

pub proof fn lemma_item_takes(kind: Listing, tokens: Tokens)
    requires
        item(kind, tokens) is Ok,
    ensures
        item(kind, tokens)->Ok_0.1.len() < tokens.len(),
    decreases tokens.len(), 10nat,
{
    match kind {
        Listing::Arguments => lemma_expression_takes(tokens),
        Listing::FieldValues => {
            let named = ident(tokens)->Ok_0.1;
            let valued = consume(named, TokenView::Colon)->Ok_0.1;
            lemma_expression_takes(valued);
        },
        Listing::Variants => {
            let case = match crate::parser::rules::first(tokens) {
                Some(Positioned { value: TokenView::Ident(_), .. }) => tokens.drop_first(),
                _ => {
                    lemma_expression_takes(tokens);
                    expression(tokens)->Ok_0.1
                },
            };
            let arrow = consume(case, TokenView::FatArrow)->Ok_0.1;
            lemma_expression_takes(arrow);
        },
        Listing::Fields | Listing::Parameters => {},
        Listing::Types => {},
    }
}

pub proof fn lemma_items_take(kind: Listing, tokens: Tokens, read: Seq<Positioned<ItemView>>)
    requires
        items(kind, tokens, read) is Ok,
    ensures
        items(kind, tokens, read)->Ok_0.1.len() <= tokens.len(),
    decreases tokens.len(), 11nat,
{
    if !crate::parser::rules::check(tokens, kind.closing()) {
        let value = item(kind, tokens)->Ok_0;
        let rest = if crate::parser::rules::check(value.1, kind.closing()) {
            value.1
        } else {
            consume(value.1, TokenView::Comma)->Ok_0.1
        };
        lemma_items_take(kind, rest, read.push(value.0));
    }
}

pub proof fn lemma_list_takes(kind: Listing, tokens: Tokens)
    requires
        list(kind, tokens) is Ok,
    ensures
        list(kind, tokens)->Ok_0.1.len() < tokens.len(),
    decreases tokens.len(), 1nat,
{
    lemma_items_take(kind, tokens.drop_first(), Seq::empty());
}

/// A program is read up to the token for the end: where it is read at all, that
/// token is what is left first.
pub proof fn lemma_program_stops_at_the_end(
    tokens: Tokens,
    until: TokenView,
    statements: Seq<Positioned<StatementView>>,
    return_statement: Option<Positioned<StatementView>>,
)
    requires
        statements_until(tokens, until, statements, return_statement) is Ok,
    ensures
        crate::parser::rules::check(
            statements_until(tokens, until, statements, return_statement)->Ok_0.1,
            until,
        ),
    decreases tokens.len(),
{
    if !crate::parser::rules::check(tokens, until) {
        let read = statement(tokens)->Ok_0;
        let ended = crate::parser::rules::check(read.1, TokenView::Semi)
            || crate::parser::rules::stands_alone(read.0.value);
        let rest = crate::parser::rules::skip(read.1, TokenView::Semi);
        if ended {
            lemma_program_stops_at_the_end(rest, until, statements.push(read.0), None);
        } else {
            lemma_program_stops_at_the_end(rest, until, statements, Some(read.0));
        }
    }
}

} // verus!
