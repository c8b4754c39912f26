//! The syntax tree as a mathematical value: names are sequences of characters,
//! lists are sequences. The contracts of the parser and of the compiler speak
//! of these.

use crate::parser::ast::{
    Block, Expression, FuncArg, FunctionCall, Ident, IndexKind, InstanceArgs, Literal, MatchCase,
    MatchVariant, Number, Operator, RecordStatement, Statement, StructField, StructFieldValue,
    StructStatement,
};
use crate::shared::{DecimalView, Positioned};
use crate::typing::{Type, TypeView};
use vstd::prelude::*;

verus! {

pub ghost enum LiteralView {
    Integer(i64),
    Float(DecimalView),
    String(Seq<char>),
    Boolean(bool),
}

pub ghost enum IndexKindView {
    Number(usize),
    Ident(Seq<char>),
}

pub ghost enum MatchCaseView {
    Ident(Seq<char>),
    Value(ExpressionView),
}

pub ghost struct MatchVariantView {
    pub case: Positioned<MatchCaseView>,
    pub body: Positioned<ExpressionView>,
}

pub ghost struct StructFieldValueView {
    pub name: Positioned<Seq<char>>,
    pub value: Positioned<ExpressionView>,
}

pub ghost enum InstanceArgsView {
    Struct(Seq<Positioned<StructFieldValueView>>),
    Record(Seq<Positioned<ExpressionView>>),
}

pub ghost struct BlockView {
    pub statements: Seq<Positioned<StatementView>>,
    pub return_statement: Option<Box<Positioned<StatementView>>>,
}

pub ghost enum ExpressionView {
    Literal(LiteralView),
    FunctionCall {
        target: Box<Positioned<ExpressionView>>,
        args: Positioned<Seq<Positioned<ExpressionView>>>,
    },
    Ident(Seq<char>),
    NewInstance { class: Positioned<Seq<char>>, values: Positioned<InstanceArgsView> },
    IfElse {
        condition: Box<Positioned<ExpressionView>>,
        block: Positioned<BlockView>,
        else_block: Option<Box<Positioned<ExpressionView>>>,
    },
    Block(BlockView),
    Match { scrutinee: Box<Positioned<ExpressionView>>, variants: Seq<Positioned<MatchVariantView>> },
    Binary {
        lhs: Box<Positioned<ExpressionView>>,
        rhs: Box<Positioned<ExpressionView>>,
        operator: Positioned<Operator>,
    },
    Index { object: Box<Positioned<ExpressionView>>, index: Positioned<IndexKindView> },
}

/// A name with the type that was written behind it.
pub ghost struct TypedNameView {
    pub name: Positioned<Seq<char>>,
    pub ty: Positioned<TypeView>,
}

pub ghost struct VariableStatementView {
    pub mutable: Positioned<bool>,
    pub name: Positioned<Seq<char>>,
    pub ty: Option<Positioned<TypeView>>,
    pub value: Positioned<ExpressionView>,
}

pub ghost struct StructStatementView {
    pub name: Positioned<Seq<char>>,
    pub fields: Positioned<Seq<Positioned<TypedNameView>>>,
}

pub ghost struct RecordStatementView {
    pub name: Positioned<Seq<char>>,
    pub fields: Positioned<Seq<Positioned<TypeView>>>,
}

pub ghost struct FuncStatementView {
    pub name: Positioned<Seq<char>>,
    pub args: Positioned<Seq<Positioned<TypedNameView>>>,
    pub output_type: Option<Positioned<TypeView>>,
    pub body: Positioned<BlockView>,
}

pub ghost struct ForStatementView {
    pub name: Positioned<Seq<char>>,
    pub target: Positioned<ExpressionView>,
    pub body: Positioned<BlockView>,
}

pub ghost struct WhileStatementView {
    pub condition: Positioned<ExpressionView>,
    pub body: Positioned<BlockView>,
}

pub ghost enum StatementView {
    Variable(VariableStatementView),
    Struct(StructStatementView),
    Record(RecordStatementView),
    Func(FuncStatementView),
    ForIn(ForStatementView),
    WhileLoop(WhileStatementView),
    Expression(ExpressionView),
}

/// A name at its place.
pub open spec fn name_view(name: Positioned<Ident>) -> Positioned<Seq<char>> {
    Positioned { value: name.value.0@, span: name.span }
}

/// A type at its place.
pub open spec fn type_view(ty: Positioned<Type>) -> Positioned<TypeView> {
    Positioned { value: ty.value@, span: ty.span }
}

pub open spec fn optional_type_view(ty: Option<Positioned<Type>>) -> Option<Positioned<TypeView>> {
    match ty {
        Some(ty) => Some(type_view(ty)),
        None => None,
    }
}

pub open spec fn positioned_types_view(types: Seq<Positioned<Type>>) -> Seq<Positioned<TypeView>> {
    Seq::new(types.len(), |i: int| type_view(types[i]))
}

impl View for Literal {
    type V = LiteralView;

    open spec fn view(&self) -> LiteralView {
        match self {
            Literal::Number(Number::Int(value)) => LiteralView::Integer(*value),
            Literal::Number(Number::Float(value)) => LiteralView::Float(value@),
            Literal::String(text) => LiteralView::String(text@),
            Literal::Boolean(value) => LiteralView::Boolean(*value),
        }
    }
}

impl View for IndexKind {
    type V = IndexKindView;

    open spec fn view(&self) -> IndexKindView {
        match self {
            IndexKind::Number(position) => IndexKindView::Number(*position),
            IndexKind::Ident(name) => IndexKindView::Ident(name.0@),
        }
    }
}

impl View for StructField {
    type V = TypedNameView;

    open spec fn view(&self) -> TypedNameView {
        TypedNameView { name: name_view(self.name), ty: type_view(self.ty) }
    }
}

impl View for FuncArg {
    type V = TypedNameView;

    open spec fn view(&self) -> TypedNameView {
        TypedNameView { name: name_view(self.name), ty: type_view(self.ty) }
    }
}

pub open spec fn struct_fields_view(fields: Seq<Positioned<StructField>>) -> Seq<
    Positioned<TypedNameView>,
> {
    Seq::new(fields.len(), |i: int| Positioned { value: fields[i].value@, span: fields[i].span })
}

pub open spec fn func_args_view(args: Seq<Positioned<FuncArg>>) -> Seq<Positioned<TypedNameView>> {
    Seq::new(args.len(), |i: int| Positioned { value: args[i].value@, span: args[i].span })
}

impl View for StructStatement {
    type V = StructStatementView;

    open spec fn view(&self) -> StructStatementView {
        StructStatementView {
            name: name_view(self.name),
            fields: Positioned {
                value: struct_fields_view(self.fields.value@),
                span: self.fields.span,
            },
        }
    }
}

impl View for RecordStatement {
    type V = RecordStatementView;

    open spec fn view(&self) -> RecordStatementView {
        RecordStatementView {
            name: name_view(self.name),
            fields: Positioned {
                value: positioned_types_view(self.fields.value@),
                span: self.fields.span,
            },
        }
    }
}

impl Expression {
    pub open spec fn model(&self) -> ExpressionView
        decreases self,
    {
        match self {
            Expression::Literal(literal) => ExpressionView::Literal(literal@),
            Expression::FunctionCall(call) => ExpressionView::FunctionCall {
                target: Box::new(
                    Positioned { value: call.target.value.model(), span: call.target.span },
                ),
                args: Positioned {
                    value: Seq::new(
                        call.args.value.len() as nat,
                        |i: int|
                            if 0 <= i < call.args.value.len() {
                                Positioned {
                                    value: call.args.value[i].value.model(),
                                    span: call.args.value[i].span,
                                }
                            } else {
                                arbitrary()
                            },
                    ),
                    span: call.args.span,
                },
            },
            Expression::Ident(name) => ExpressionView::Ident(name.0@),
            Expression::NewInstance(new) => ExpressionView::NewInstance {
                class: name_view(new.target),
                values: Positioned {
                    value: match new.args.value {
                        InstanceArgs::Struct(fields) => InstanceArgsView::Struct(
                            Seq::new(
                                fields.len() as nat,
                                |i: int|
                                    if 0 <= i < fields.len() {
                                        Positioned {
                                            value: StructFieldValueView {
                                                name: name_view(fields[i].value.name),
                                                value: Positioned {
                                                    value: fields[i].value.value.value.model(),
                                                    span: fields[i].value.value.span,
                                                },
                                            },
                                            span: fields[i].span,
                                        }
                                    } else {
                                        arbitrary()
                                    },
                            ),
                        ),
                        InstanceArgs::Record(values) => InstanceArgsView::Record(
                            Seq::new(
                                values.len() as nat,
                                |i: int|
                                    if 0 <= i < values.len() {
                                        Positioned {
                                            value: values[i].value.model(),
                                            span: values[i].span,
                                        }
                                    } else {
                                        arbitrary()
                                    },
                            ),
                        ),
                    },
                    span: new.args.span,
                },
            },
            Expression::IfElse(branch) => ExpressionView::IfElse {
                condition: Box::new(
                    Positioned {
                        value: branch.condition.value.model(),
                        span: branch.condition.span,
                    },
                ),
                block: Positioned { value: branch.block.value.model(), span: branch.block.span },
                else_block: match branch.else_block {
                    Some(other) => Some(
                        Box::new(Positioned { value: other.value.model(), span: other.span }),
                    ),
                    None => None,
                },
            },
            Expression::Block(block) => ExpressionView::Block(block.model()),
            Expression::Match(matching) => ExpressionView::Match {
                scrutinee: Box::new(
                    Positioned {
                        value: matching.target.value.model(),
                        span: matching.target.span,
                    },
                ),
                variants: Seq::new(
                    matching.variants.len() as nat,
                    |i: int|
                        if 0 <= i < matching.variants.len() {
                            Positioned {
                                value: MatchVariantView {
                                    case: Positioned {
                                        value: match matching.variants[i].value.case.value {
                                            MatchCase::Ident(name) => MatchCaseView::Ident(name.0@),
                                            MatchCase::Value(value) => MatchCaseView::Value(
                                                value.model(),
                                            ),
                                        },
                                        span: matching.variants[i].value.case.span,
                                    },
                                    body: Positioned {
                                        value: matching.variants[i].value.body.value.model(),
                                        span: matching.variants[i].value.body.span,
                                    },
                                },
                                span: matching.variants[i].span,
                            }
                        } else {
                            arbitrary()
                        },
                ),
            },
            Expression::Binary(binary) => ExpressionView::Binary {
                lhs: Box::new(Positioned { value: binary.lhs.value.model(), span: binary.lhs.span }),
                rhs: Box::new(Positioned { value: binary.rhs.value.model(), span: binary.rhs.span }),
                operator: binary.operator,
            },
            Expression::Index(index) => ExpressionView::Index {
                object: Box::new(
                    Positioned { value: index.target.value.model(), span: index.target.span },
                ),
                index: Positioned { value: index.index.value@, span: index.index.span },
            },
        }
    }
}

impl Block {
    pub open spec fn model(&self) -> BlockView
        decreases self,
    {
        BlockView {
            statements: Seq::new(
                self.statements.len() as nat,
                |i: int|
                    if 0 <= i < self.statements.len() {
                        Positioned {
                            value: self.statements[i].value.model(),
                            span: self.statements[i].span,
                        }
                    } else {
                        arbitrary()
                    },
            ),
            return_statement: match self.return_statement {
                Some(statement) => Some(
                    Box::new(Positioned { value: statement.value.model(), span: statement.span }),
                ),
                None => None,
            },
        }
    }
}

impl Statement {
    pub open spec fn model(&self) -> StatementView
        decreases self,
    {
        match self {
            Statement::Variable(variable) => StatementView::Variable(
                VariableStatementView {
                    mutable: variable.mutable,
                    name: name_view(variable.name),
                    ty: optional_type_view(variable.ty),
                    value: Positioned {
                        value: variable.value.value.model(),
                        span: variable.value.span,
                    },
                },
            ),
            Statement::Struct(structure) => StatementView::Struct(structure@),
            Statement::Record(record) => StatementView::Record(record@),
            Statement::Func(func) => StatementView::Func(
                FuncStatementView {
                    name: name_view(func.name),
                    args: Positioned { value: func_args_view(func.args.value@), span: func.args.span },
                    output_type: optional_type_view(func.output_type),
                    body: Positioned { value: func.body.value.model(), span: func.body.span },
                },
            ),
            Statement::ForIn(each) => StatementView::ForIn(
                ForStatementView {
                    name: name_view(each.name),
                    target: Positioned { value: each.target.value.model(), span: each.target.span },
                    body: Positioned { value: each.body.value.model(), span: each.body.span },
                },
            ),
            Statement::WhileLoop(repeat) => StatementView::WhileLoop(
                WhileStatementView {
                    condition: Positioned {
                        value: repeat.condition.value.model(),
                        span: repeat.condition.span,
                    },
                    body: Positioned { value: repeat.body.value.model(), span: repeat.body.span },
                },
            ),
            Statement::Expression(expression) => StatementView::Expression(expression.model()),
        }
    }
}

impl View for Expression {
    type V = ExpressionView;

    open spec fn view(&self) -> ExpressionView {
        self.model()
    }
}

impl View for Block {
    type V = BlockView;

    open spec fn view(&self) -> BlockView {
        self.model()
    }
}

impl View for Statement {
    type V = StatementView;

    open spec fn view(&self) -> StatementView {
        self.model()
    }
}

/// An expression at its place.
pub open spec fn expression_view(expression: Positioned<Expression>) -> Positioned<ExpressionView> {
    Positioned { value: expression.value@, span: expression.span }
}

pub open spec fn expressions_view(expressions: Seq<Positioned<Expression>>) -> Seq<
    Positioned<ExpressionView>,
> {
    Seq::new(expressions.len(), |i: int| expression_view(expressions[i]))
}

/// A statement at its place.
pub open spec fn statement_view(statement: Positioned<Statement>) -> Positioned<StatementView> {
    Positioned { value: statement.value@, span: statement.span }
}

pub open spec fn statements_view(statements: Seq<Positioned<Statement>>) -> Seq<
    Positioned<StatementView>,
> {
    Seq::new(statements.len(), |i: int| statement_view(statements[i]))
}

pub open spec fn optional_statement_view(statement: Option<Positioned<Statement>>) -> Option<
    Positioned<StatementView>,
> {
    match statement {
        Some(statement) => Some(statement_view(statement)),
        None => None,
    }
}

/// A block at its place.
pub open spec fn block_view(block: Positioned<Block>) -> Positioned<BlockView> {
    Positioned { value: block.value@, span: block.span }
}

impl View for MatchCase {
    type V = MatchCaseView;

    open spec fn view(&self) -> MatchCaseView {
        match self {
            MatchCase::Ident(name) => MatchCaseView::Ident(name.0@),
            MatchCase::Value(value) => MatchCaseView::Value(value@),
        }
    }
}

impl View for MatchVariant {
    type V = MatchVariantView;

    open spec fn view(&self) -> MatchVariantView {
        MatchVariantView {
            case: Positioned { value: self.case.value@, span: self.case.span },
            body: expression_view(self.body),
        }
    }
}

pub open spec fn variants_view(variants: Seq<Positioned<MatchVariant>>) -> Seq<
    Positioned<MatchVariantView>,
> {
    Seq::new(variants.len(), |i: int| Positioned { value: variants[i].value@, span: variants[i].span })
}

impl View for StructFieldValue {
    type V = StructFieldValueView;

    open spec fn view(&self) -> StructFieldValueView {
        StructFieldValueView { name: name_view(self.name), value: expression_view(self.value) }
    }
}

pub open spec fn field_values_view(fields: Seq<Positioned<StructFieldValue>>) -> Seq<
    Positioned<StructFieldValueView>,
> {
    Seq::new(fields.len(), |i: int| Positioned { value: fields[i].value@, span: fields[i].span })
}

impl View for InstanceArgs {
    type V = InstanceArgsView;

    open spec fn view(&self) -> InstanceArgsView {
        match self {
            InstanceArgs::Struct(fields) => InstanceArgsView::Struct(field_values_view(fields@)),
            InstanceArgs::Record(values) => InstanceArgsView::Record(expressions_view(values@)),
        }
    }
}

/// The view of each kind of node, said over the views of its parts.
pub proof fn lemma_expression_view(expression: Expression)
    ensures
        expression matches Expression::FunctionCall(call) ==> expression@
            == (ExpressionView::FunctionCall {
            target: Box::new(expression_view(*call.target)),
            args: Positioned { value: expressions_view(call.args.value@), span: call.args.span },
        }),
        expression matches Expression::NewInstance(new) ==> expression@
            == (ExpressionView::NewInstance {
            class: name_view(new.target),
            values: Positioned { value: new.args.value@, span: new.args.span },
        }),
        expression matches Expression::IfElse(branch) ==> expression@ == (ExpressionView::IfElse {
            condition: Box::new(expression_view(*branch.condition)),
            block: block_view(branch.block),
            else_block: match branch.else_block {
                Some(other) => Some(Box::new(expression_view(*other))),
                None => None,
            },
        }),
        expression matches Expression::Match(matching) ==> expression@ == (ExpressionView::Match {
            scrutinee: Box::new(expression_view(*matching.target)),
            variants: variants_view(matching.variants@),
        }),
        expression matches Expression::Binary(binary) ==> expression@ == (ExpressionView::Binary {
            lhs: Box::new(expression_view(binary.lhs)),
            rhs: Box::new(expression_view(binary.rhs)),
            operator: binary.operator,
        }),
        expression matches Expression::Index(index) ==> expression@ == (ExpressionView::Index {
            object: Box::new(expression_view(index.target)),
            index: Positioned { value: index.index.value@, span: index.index.span },
        }),
{
    match expression {
        Expression::FunctionCall(call) => {
            assert(expression@->FunctionCall_args.value =~= expressions_view(call.args.value@));
        },
        Expression::NewInstance(new) => {
            match new.args.value {
                InstanceArgs::Struct(fields) => {
                    assert(expression@->NewInstance_values.value->Struct_0 =~= field_values_view(
                        fields@,
                    ));
                },
                InstanceArgs::Record(values) => {
                    assert(expression@->NewInstance_values.value->Record_0 =~= expressions_view(
                        values@,
                    ));
                },
            }
        },
        Expression::Match(matching) => {
            assert(expression@->Match_variants =~= variants_view(matching.variants@));
        },
        _ => {},
    }
}

/// The view of a block, said over the views of its statements.
pub proof fn lemma_block_view(block: Block)
    ensures
        block@ == (BlockView {
            statements: statements_view(block.statements@),
            return_statement: match block.return_statement {
                Some(statement) => Some(Box::new(statement_view(*statement))),
                None => None,
            },
        }),
{
    assert(block@.statements =~= statements_view(block.statements@));
}

} // verus!
