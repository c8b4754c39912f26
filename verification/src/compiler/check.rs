//! The type checker: the type of each construct, and whether the compiler has
//! code for it.

use crate::compiler::rules::{
    arms_supported, arms_type, binary_type, block_supported, block_type, expression_supported,
    expressions_supported, fields_supported, gives_boolean, literal_type, property_of,
    record_or_struct, some_function, statement_supported, statement_type, statements_supported,
    takes_numbers, type_of,
};
use crate::compiler::state::{CompileError, InstanceArgsType};
use crate::compiler::table::{field_position, typed, CompileResult, Compiler};
use crate::parser::ast::{
    BinaryExpression, Block, Expression, FunctionCall, Ident, IfElseExpression, IndexExpression,
    IndexKind, InstanceArgs, Literal, MatchCase, MatchExpression, MatchVariant,
    NewInstanceExpression, Number, Operator, Statement, StructFieldValue,
};
use crate::parser::model::{
    expressions_view, field_values_view, lemma_block_view, lemma_expression_view, statements_view,
    variants_view,
};
use crate::shared::{Positioned, Span};
use crate::text::decimal_text;
use crate::typing::{
    lemma_type_view, types_view, FunctionType, RecordType, StructType, Type, TypeView,
};
use vstd::prelude::*;

verus! {

/// The type that stands for every function in an error.
pub fn any_function() -> (ty: Type)
    ensures
        ty@ == some_function(),
{
    let ty = Type::Function(FunctionType { args: Vec::new(), output_type: Box::new(Type::Nothing) });
    proof {
        lemma_type_view(ty);
        assert(types_view(Seq::<Type>::empty()) =~= Seq::<TypeView>::empty());
    }
    ty
}

/// The types that stand for every record and every struct in an error.
pub fn any_instance() -> (types: Vec<Type>)
    ensures
        types_view(types@) == record_or_struct(),
{
    let record = Type::Record(RecordType { name: String::new(), fields: Vec::new() });
    let structure = Type::Struct(StructType { name: String::new(), fields: Vec::new() });
    proof {
        lemma_type_view(record);
        lemma_type_view(structure);
        assert(types_view(Seq::<Type>::empty()) =~= Seq::<TypeView>::empty());
        assert(crate::typing::fields_view(Seq::<(String, Type)>::empty()) =~= Seq::<
            (Seq<char>, TypeView),
        >::empty());
    }
    let mut types: Vec<Type> = Vec::new();
    types.push(record);
    types.push(structure);
    assert(types_view(types@) =~= record_or_struct());
    types
}

/// The property `index` of a value of type `target`: its place among the
/// fields and its type.
pub fn find_property(target: &Type, target_at: Span, index: &Positioned<IndexKind>) -> (found:
    CompileResult<(usize, Type)>)
    ensures
        match property_of(target@, target_at, Positioned { value: index.value@, span: index.span }) {
            Ok((place, ty)) => found matches Ok(pair) && pair.0 == place && pair.1@ == ty,
            Err(error) => found matches Err(other) && other@ == error,
        },
{
    proof {
        lemma_type_view(*target);
    }
    match target {
        Type::Record(record) => match &index.value {
            IndexKind::Number(place) => {
                if *place < record.fields.len() {
                    Ok((*place, record.fields[*place].clone()))
                } else {
                    Err(
                        CompileError::PropertyNotExist {
                            target: record.name.clone(),
                            property: decimal_text(*place),
                            defined_at: None,
                            at: index.span,
                        },
                    )
                }
            },
            IndexKind::Ident(_) => Err(
                CompileError::InvalidInstanceArgs {
                    expected: InstanceArgsType::Record,
                    got: InstanceArgsType::Struct,
                    instance_at: None,
                    at: index.span,
                },
            ),
        },
        Type::Struct(structure) => match &index.value {
            IndexKind::Ident(name) => match field_position(&structure.fields, &name.0) {
                Some(place) => Ok((place, structure.fields[place].1.clone())),
                None => Err(
                    CompileError::PropertyNotExist {
                        target: structure.name.clone(),
                        property: name.0.clone(),
                        defined_at: None,
                        at: index.span,
                    },
                ),
            },
            IndexKind::Number(_) => Err(
                CompileError::InvalidInstanceArgs {
                    expected: InstanceArgsType::Struct,
                    got: InstanceArgsType::Record,
                    instance_at: None,
                    at: index.span,
                },
            ),
        },
        other => Err(
            CompileError::OneOfTypeExpected {
                expected: any_instance(),
                found: other.clone(),
                at: target_at,
            },
        ),
    }
}

/// The type of a binary expression from the types of its sides.
pub fn check_binary(
    operator: Operator,
    primary: Type,
    secondary: Type,
    lhs_at: Span,
    rhs_at: Span,
) -> (found: CompileResult<Type>)
    ensures
        typed(binary_type(operator, primary@, secondary@, lhs_at, rhs_at), found),
{
    let numeric = matches!(
        operator,
        Operator::Add | Operator::Sub | Operator::Mul | Operator::Div | Operator::GreaterThan
            | Operator::LessThan
    );
    assert(numeric == takes_numbers(operator));
    if numeric && !matches!(primary, Type::Float | Type::Integer) {
        let mut expected: Vec<Type> = Vec::new();
        expected.push(Type::Float);
        expected.push(Type::Integer);
        assert(types_view(expected@) =~= seq![TypeView::Float, TypeView::Integer]);
        return Err(CompileError::OneOfTypeExpected { expected, found: primary, at: lhs_at });
    }
    if matches!(operator, Operator::And | Operator::Or) && !matches!(primary, Type::Boolean) {
        return Err(
            CompileError::TypeExpected { expected: Type::Boolean, found: primary, at: lhs_at },
        );
    }
    if !primary.same(&secondary) {
        return Err(CompileError::TypeExpected { expected: primary, found: secondary, at: rhs_at });
    }
    let comparing = matches!(
        operator,
        Operator::Equal | Operator::GreaterThan | Operator::LessThan | Operator::NotEqual
    );
    assert(comparing == gives_boolean(operator));
    if comparing {
        Ok(Type::Boolean)
    } else {
        Ok(primary)
    }
}

impl Literal {
    /// The type of the literal.
    pub fn get_type(&self) -> (ty: Type)
        ensures
            ty@ == literal_type(self@),
    {
        match self {
            Literal::Number(Number::Float(_)) => Type::Float,
            Literal::Number(Number::Int(_)) => Type::Integer,
            Literal::String(_) => Type::String,
            Literal::Boolean(_) => Type::Boolean,
        }
    }
}

impl FunctionCall {
    /// The type of a call: what the function gives.
    pub fn get_type(&self, compiler: &Compiler, span: Span) -> (found: CompileResult<Type>)
        ensures
            typed(type_of(Expression::FunctionCall(*self)@, span, compiler@), found),
        decreases self, 0nat,
    {
        proof {
            lemma_expression_view(Expression::FunctionCall(*self));
        }
        match self.target.value.get_type(compiler, self.target.span) {
            Ok(ty) => {
                proof {
                    lemma_type_view(ty);
                }
                match ty {
                    Type::Function(function) => Ok(*function.output_type),
                    other => Err(
                        CompileError::TypeExpected {
                            expected: any_function(),
                            found: other,
                            at: self.target.span,
                        },
                    ),
                }
            },
            Err(error) => Err(error),
        }
    }
}

impl Ident {
    /// The type of the variable of this name.
    pub fn get_type(&self, compiler: &Compiler, span: Span) -> (found: CompileResult<Type>)
        ensures
            typed(type_of(Expression::Ident(*self)@, span, compiler@), found),
    {
        match compiler.get_var(span, &self.0) {
            Ok((_, variable)) => Ok(variable.ty.clone()),
            Err(error) => Err(error),
        }
    }
}

impl NewInstanceExpression {
    /// The type of a new instance: that of the struct or record it is made of.
    pub fn get_type(&self, compiler: &Compiler, span: Span) -> (found: CompileResult<Type>)
        ensures
            typed(type_of(Expression::NewInstance(*self)@, span, compiler@), found),
    {
        proof {
            lemma_expression_view(Expression::NewInstance(*self));
        }
        match compiler.get_var(self.target.span, &self.target.value.0) {
            Ok((_, variable)) => Ok(variable.ty.clone()),
            Err(error) => Err(error),
        }
    }
}

impl IfElseExpression {
    /// The type of a conditional: that of its block.
    pub fn get_type(&self, compiler: &Compiler, span: Span) -> (found: CompileResult<Type>)
        ensures
            typed(type_of(Expression::IfElse(*self)@, span, compiler@), found),
        decreases self, 0nat,
    {
        proof {
            lemma_expression_view(Expression::IfElse(*self));
        }
        self.block.value.get_type(compiler)
    }
}

impl MatchExpression {
    /// The type of a `match`: that of what its arms give, which must all
    /// give the same; nothing, where it has no arm.
    pub fn get_type(&self, compiler: &Compiler, span: Span) -> (found: CompileResult<Type>)
        ensures
            typed(type_of(Expression::Match(*self)@, span, compiler@), found),
        decreases self, 0nat,
    {
        proof {
            lemma_expression_view(Expression::Match(*self));
        }
        if self.variants.len() == 0 {
            return Ok(Type::Nothing);
        }
        let first = &self.variants[0].value.body;
        let primary = match first.value.get_type(compiler, first.span) {
            Ok(primary) => primary,
            Err(error) => {
                return Err(error);
            },
        };
        match arms_typed(&self.variants, &primary, compiler) {
            Ok(()) => {},
            Err(error) => {
                return Err(error);
            },
        }
        Ok(primary)
    }
}

impl BinaryExpression {
    /// The type of a binary expression: its sides are checked against its
    /// operator.
    pub fn get_type(&self, compiler: &Compiler, span: Span) -> (found: CompileResult<Type>)
        ensures
            typed(type_of(Expression::Binary(Box::new(*self))@, span, compiler@), found),
        decreases self, 0nat,
    {
        proof {
            lemma_expression_view(Expression::Binary(Box::new(*self)));
        }
        let primary = match self.lhs.value.get_type(compiler, self.lhs.span) {
            Ok(primary) => primary,
            Err(error) => {
                return Err(error);
            },
        };
        let secondary = match self.rhs.value.get_type(compiler, self.rhs.span) {
            Ok(secondary) => secondary,
            Err(error) => {
                return Err(error);
            },
        };
        check_binary(self.operator.value, primary, secondary, self.lhs.span, self.rhs.span)
    }
}

impl IndexExpression {
    /// The type of a property: that of the field it names.
    pub fn get_type(&self, compiler: &Compiler, span: Span) -> (found: CompileResult<Type>)
        ensures
            typed(type_of(Expression::Index(Box::new(*self))@, span, compiler@), found),
        decreases self, 0nat,
    {
        proof {
            lemma_expression_view(Expression::Index(Box::new(*self)));
        }
        match self.target.value.get_type(compiler, self.target.span) {
            Ok(target) => match find_property(&target, self.target.span, &self.index) {
                Ok((_, ty)) => Ok(ty),
                Err(error) => Err(error),
            },
            Err(error) => Err(error),
        }
    }
}

impl Expression {
    /// The type of the expression, read at `span`, among the variables of
    /// `compiler`.
    pub fn get_type(&self, compiler: &Compiler, span: Span) -> (found: CompileResult<Type>)
        ensures
            typed(type_of(self@, span, compiler@), found),
        decreases self, 1nat,
    {
        match self {
            Expression::Literal(value) => Ok(value.get_type()),
            Expression::FunctionCall(value) => value.get_type(compiler, span),
            Expression::Ident(value) => value.get_type(compiler, span),
            Expression::NewInstance(value) => value.get_type(compiler, span),
            Expression::IfElse(value) => value.get_type(compiler, span),
            Expression::Block(value) => value.get_type(compiler),
            Expression::Match(value) => value.get_type(compiler, span),
            Expression::Binary(value) => value.get_type(compiler, span),
            Expression::Index(value) => value.get_type(compiler, span),
        }
    }

    /// Whether the compiler has code for everything in the expression.
    pub fn is_supported(&self) -> (supported: bool)
        ensures
            supported == expression_supported(self@),
        decreases self, 0nat,
    {
        proof {
            lemma_expression_view(*self);
        }
        match self {
            Expression::Literal(_) => true,
            Expression::Ident(_) => true,
            Expression::FunctionCall(call) => {
                if !call.target.value.is_supported() {
                    return false;
                }
                all_expressions_supported(&call.args.value)
            },
            Expression::NewInstance(new) => match &new.args.value {
                InstanceArgs::Struct(fields) => all_fields_supported(fields),
                InstanceArgs::Record(items) => all_expressions_supported(items),
            },
            Expression::IfElse(branch) => {
                branch.condition.value.is_supported() && branch.block.value.is_supported()
                    && match &branch.else_block {
                    Some(other) => other.value.is_supported(),
                    None => true,
                }
            },
            Expression::Block(block) => block.is_supported(),
            Expression::Match(matching) => {
                if !matching.target.value.is_supported() {
                    return false;
                }
                all_arms_supported(&matching.variants)
            },
            Expression::Binary(binary) => binary.lhs.value.is_supported()
                && binary.rhs.value.is_supported(),
            Expression::Index(index) => index.target.value.is_supported(),
        }
    }
}

impl Block {
    /// The type of the block: that of the expression that ends it.
    pub fn get_type(&self, compiler: &Compiler) -> (found: CompileResult<Type>)
        ensures
            typed(block_type(self@, compiler@), found),
        decreases self, 0nat,
    {
        proof {
            lemma_block_view(*self);
        }
        match &self.return_statement {
            Some(statement) => statement.value.get_type(compiler, statement.span),
            None => Ok(Type::Nothing),
        }
    }

    /// Whether the compiler has code for everything in the block.
    pub fn is_supported(&self) -> (supported: bool)
        ensures
            supported == block_supported(self@),
        decreases self, 1nat,
    {
        proof {
            lemma_block_view(*self);
        }
        if !all_supported(&self.statements) {
            return false;
        }
        match &self.return_statement {
            Some(statement) => statement.value.is_supported(),
            None => true,
        }
    }
}

/// The arms behind the first all give the type `primary`.
pub fn arms_typed(
    variants: &Vec<Positioned<MatchVariant>>,
    primary: &Type,
    compiler: &Compiler,
) -> (found: CompileResult<()>)
    ensures
        match arms_type(variants_view(variants@), 1, primary@, compiler@) {
            Ok(_) => found is Ok,
            Err(error) => found matches Err(other) && other@ == error,
        },
        arms_type(variants_view(variants@), 1, primary@, compiler@) matches Ok(ty) ==> ty
            == primary@,
    decreases variants, 0nat,
{
    let mut i: usize = 1;
    while i < variants.len()
        invariant
            1 <= i,
            arms_type(variants_view(variants@), 1, primary@, compiler@) == arms_type(
                variants_view(variants@),
                i as int,
                primary@,
                compiler@,
            ),
        decreases variants.len() - i,
    {
        let body = &variants[i].value.body;
        match body.value.get_type(compiler, body.span) {
            Ok(found) => {
                if !found.same(primary) {
                    return Err(
                        CompileError::TypeExpected {
                            expected: primary.clone(),
                            found,
                            at: body.span,
                        },
                    );
                }
            },
            Err(error) => {
                return Err(error);
            },
        }
        i += 1;
    }
    Ok(())
}

/// Whether the compiler has code for every one of the expressions.
pub fn all_expressions_supported(expressions: &Vec<Positioned<Expression>>) -> (supported: bool)
    ensures
        supported == expressions_supported(expressions_view(expressions@), 0),
    decreases expressions, 0nat,
{
    let mut i: usize = 0;
    while i < expressions.len()
        invariant
            i <= expressions.len(),
            expressions_supported(expressions_view(expressions@), 0) == expressions_supported(
                expressions_view(expressions@),
                i as int,
            ),
        decreases expressions.len() - i,
    {
        if !expressions[i].value.is_supported() {
            return false;
        }
        i += 1;
    }
    true
}

/// Whether the compiler has code for the value of every one of the fields.
pub fn all_fields_supported(fields: &Vec<Positioned<StructFieldValue>>) -> (supported: bool)
    ensures
        supported == fields_supported(field_values_view(fields@), 0),
    decreases fields, 0nat,
{
    let mut i: usize = 0;
    while i < fields.len()
        invariant
            i <= fields.len(),
            fields_supported(field_values_view(fields@), 0) == fields_supported(
                field_values_view(fields@),
                i as int,
            ),
        decreases fields.len() - i,
    {
        if !fields[i].value.value.value.is_supported() {
            return false;
        }
        i += 1;
    }
    true
}

/// Whether the compiler has code for every one of the arms.
pub fn all_arms_supported(variants: &Vec<Positioned<MatchVariant>>) -> (supported: bool)
    ensures
        supported == arms_supported(variants_view(variants@), 0),
    decreases variants, 0nat,
{
    let mut i: usize = 0;
    while i < variants.len()
        invariant
            i <= variants.len(),
            arms_supported(variants_view(variants@), 0) == arms_supported(
                variants_view(variants@),
                i as int,
            ),
        decreases variants.len() - i,
    {
        let variant = &variants[i].value;
        let case = match &variant.case.value {
            MatchCase::Ident(_) => true,
            MatchCase::Value(value) => value.is_supported(),
        };
        if !case || !variant.body.value.is_supported() {
            return false;
        }
        i += 1;
    }
    true
}

/// Whether the compiler has code for every one of the statements.
pub fn all_supported(statements: &Vec<Positioned<Statement>>) -> (supported: bool)
    ensures
        supported == statements_supported(statements_view(statements@), 0),
    decreases statements, 0nat,
{
    let mut i: usize = 0;
    while i < statements.len()
        invariant
            i <= statements.len(),
            statements_supported(statements_view(statements@), 0) == statements_supported(
                statements_view(statements@),
                i as int,
            ),
        decreases statements.len() - i,
    {
        if !statements[i].value.is_supported() {
            return false;
        }
        i += 1;
    }
    true
}

impl Statement {
    /// The type of the statement: that of an expression, nothing for the
    /// others.
    pub fn get_type(&self, compiler: &Compiler, span: Span) -> (found: CompileResult<Type>)
        ensures
            typed(statement_type(self@, span, compiler@), found),
        decreases self, 0nat,
    {
        match self {
            Statement::Expression(value) => value.get_type(compiler, span),
            _ => Ok(Type::Nothing),
        }
    }

    /// Whether the compiler has code for everything in the statement: it has
    /// none for loops.
    pub fn is_supported(&self) -> (supported: bool)
        ensures
            supported == statement_supported(self@),
        decreases self, 0nat,
    {
        match self {
            Statement::Variable(variable) => variable.value.value.is_supported(),
            Statement::Struct(_) => true,
            Statement::Record(_) => true,
            Statement::Func(func) => func.body.value.is_supported(),
            Statement::ForIn(_) => false,
            Statement::WhileLoop(_) => false,
            Statement::Expression(expression) => expression.is_supported(),
        }
    }
}

} // verus!
