//! What every construct that has a type, and every one that has code, offers.

use crate::compiler::rules::{
    block_compiled, block_supported, block_type, expression_compiled, expression_supported,
    literal_type, statement_compiled, statement_supported, statement_type, type_of,
};
use crate::compiler::state::{Build, CompileErrorView, CompilerView};
use crate::compiler::table::{built, now, typed, CompileResult, Compiler};
use crate::parser::ast::{
    BinaryExpression, Block, Expression, Ident, IndexExpression, Literal, Operator, Statement,
};
use crate::parser::model::{expression_view, lemma_expression_view, ExpressionView};
use crate::shared::{Positioned, Span};
use crate::typing::{Type, TypeView};
use crate::vm::chunk::Chunk;
use crate::vm::value::Heap;
use crate::compiler::state::Failure;
use vstd::prelude::*;

verus! {

/// A construct that has a type.
pub trait GetType {
    /// The type that the rules give the construct, read at `span`.
    spec fn type_rule(&self, span: Span, compiler: CompilerView) -> Result<TypeView, CompileErrorView>;

    /// Finds the type of the construct, read at `span`.
    fn get_type(&self, compiler: &Compiler, span: Span) -> (found: CompileResult<Type>)
        ensures
            typed(self.type_rule(span, compiler@), found),
    ;
}

impl GetType for Literal {
    open spec fn type_rule(&self, span: Span, compiler: CompilerView) -> Result<
        TypeView,
        CompileErrorView,
    > {
        Ok(literal_type(self@))
    }

    fn get_type(&self, compiler: &Compiler, span: Span) -> (found: CompileResult<Type>) {
        Ok(Literal::get_type(self))
    }
}

impl GetType for Expression {
    open spec fn type_rule(&self, span: Span, compiler: CompilerView) -> Result<
        TypeView,
        CompileErrorView,
    > {
        type_of(self@, span, compiler)
    }

    fn get_type(&self, compiler: &Compiler, span: Span) -> (found: CompileResult<Type>) {
        Expression::get_type(self, compiler, span)
    }
}

impl GetType for Block {
    open spec fn type_rule(&self, span: Span, compiler: CompilerView) -> Result<
        TypeView,
        CompileErrorView,
    > {
        block_type(self@, compiler)
    }

    fn get_type(&self, compiler: &Compiler, span: Span) -> (found: CompileResult<Type>) {
        Block::get_type(self, compiler)
    }
}

impl GetType for Statement {
    open spec fn type_rule(&self, span: Span, compiler: CompilerView) -> Result<
        TypeView,
        CompileErrorView,
    > {
        statement_type(self@, span, compiler)
    }

    fn get_type(&self, compiler: &Compiler, span: Span) -> (found: CompileResult<Type>) {
        Statement::get_type(self, compiler, span)
    }
}

/// What stands at a place has its type read at that place, whatever span is
/// handed in.
impl<T: GetType> GetType for Positioned<T> {
    open spec fn type_rule(&self, span: Span, compiler: CompilerView) -> Result<
        TypeView,
        CompileErrorView,
    > {
        self.value.type_rule(self.span, compiler)
    }

    fn get_type(&self, compiler: &Compiler, span: Span) -> (found: CompileResult<Type>) {
        self.value.get_type(compiler, self.span)
    }
}

/// A construct that has code.
pub trait Compile {
    /// Whether the compiler has code for everything in the construct.
    spec fn supported(&self) -> bool;

    /// What the rules make of the construct, read at `span`.
    spec fn code_rule(&self, span: Span, build: Build) -> Result<Build, Failure>;

    /// Checks the construct, read at `span`, and appends its code.
    fn compile(&self, compiler: &mut Compiler, heap: &mut Heap, span: Span, chunk: &mut Chunk) -> (result:
        CompileResult<()>)
        requires
            self.supported(),
        ensures
            built(
                self.code_rule(span, now(*old(compiler), *old(chunk), *old(heap))),
                result,
                now(*final(compiler), *final(chunk), *final(heap)),
            ),
    ;
}

impl Compile for Expression {
    open spec fn supported(&self) -> bool {
        expression_supported(self@)
    }

    open spec fn code_rule(&self, span: Span, build: Build) -> Result<Build, Failure> {
        expression_compiled(self@, span, build)
    }

    fn compile(&self, compiler: &mut Compiler, heap: &mut Heap, span: Span, chunk: &mut Chunk) -> (result:
        CompileResult<()>) {
        Expression::compile(self, compiler, heap, span, chunk)
    }
}

impl Compile for Block {
    open spec fn supported(&self) -> bool {
        block_supported(self@)
    }

    open spec fn code_rule(&self, span: Span, build: Build) -> Result<Build, Failure> {
        block_compiled(self@, span, build)
    }

    fn compile(&self, compiler: &mut Compiler, heap: &mut Heap, span: Span, chunk: &mut Chunk) -> (result:
        CompileResult<()>) {
        Block::compile(self, compiler, heap, span, chunk)
    }
}

impl Compile for Statement {
    open spec fn supported(&self) -> bool {
        statement_supported(self@)
    }

    open spec fn code_rule(&self, span: Span, build: Build) -> Result<Build, Failure> {
        statement_compiled(self@, span, build)
    }

    fn compile(&self, compiler: &mut Compiler, heap: &mut Heap, span: Span, chunk: &mut Chunk) -> (result:
        CompileResult<()>) {
        Statement::compile(self, compiler, heap, span, chunk)
    }
}

/// A construct at its place, which is compiled as read at that place.
pub trait CompilePositioned {
    /// Whether the compiler has code for everything in the construct.
    spec fn supported_here(&self) -> bool;

    /// What the rules make of the construct.
    spec fn code_rule_here(&self, build: Build) -> Result<Build, Failure>;

    /// Checks the construct and appends its code.
    fn compile(&self, compiler: &mut Compiler, heap: &mut Heap, chunk: &mut Chunk) -> (result:
        CompileResult<()>)
        requires
            self.supported_here(),
        ensures
            built(
                self.code_rule_here(now(*old(compiler), *old(chunk), *old(heap))),
                result,
                now(*final(compiler), *final(chunk), *final(heap)),
            ),
    ;
}

impl<T: Compile> CompilePositioned for Positioned<T> {
    open spec fn supported_here(&self) -> bool {
        self.value.supported()
    }

    open spec fn code_rule_here(&self, build: Build) -> Result<Build, Failure> {
        self.value.code_rule(self.span, build)
    }

    fn compile(&self, compiler: &mut Compiler, heap: &mut Heap, chunk: &mut Chunk) -> (result:
        CompileResult<()>) {
        self.value.compile(compiler, heap, self.span, chunk)
    }
}

/// The assignment of `value` to `target`, both read at `span`.
pub open spec fn assignment_view(
    target: ExpressionView,
    span: Span,
    value: Positioned<Expression>,
) -> ExpressionView {
    ExpressionView::Binary {
        lhs: Box::new(Positioned { value: target, span }),
        rhs: Box::new(expression_view(value)),
        operator: Positioned { value: Operator::Assign, span },
    }
}

/// A construct that can stand on the left of an assignment: it is compiled as
/// what is read, or, where a value comes with it, as what the value is
/// assigned to.
pub trait CompileAssign: Sized {
    /// The construct as an expression.
    spec fn target_view(self) -> ExpressionView;

    /// Compiles the construct, read at `span`; where there is an
    /// `assign_value`, the assignment of that value to the construct.
    fn compile(
        self,
        compiler: &mut Compiler,
        heap: &mut Heap,
        span: Span,
        chunk: &mut Chunk,
        assign_value: Option<Positioned<Expression>>,
    ) -> (result: CompileResult<()>)
        requires
            expression_supported(self.target_view()),
            assign_value matches Some(value) ==> expression_supported(value.value@),
        ensures
            built(
                match assign_value {
                    Some(value) => expression_compiled(
                        assignment_view(self.target_view(), span, value),
                        span,
                        now(*old(compiler), *old(chunk), *old(heap)),
                    ),
                    None => expression_compiled(
                        self.target_view(),
                        span,
                        now(*old(compiler), *old(chunk), *old(heap)),
                    ),
                },
                result,
                now(*final(compiler), *final(chunk), *final(heap)),
            ),
    ;
}

impl CompileAssign for Expression {
    open spec fn target_view(self) -> ExpressionView {
        self@
    }

    fn compile(
        self,
        compiler: &mut Compiler,
        heap: &mut Heap,
        span: Span,
        chunk: &mut Chunk,
        assign_value: Option<Positioned<Expression>>,
    ) -> (result: CompileResult<()>) {
        match assign_value {
            Some(value) => {
                let assignment = BinaryExpression {
                    lhs: span.wrap(self),
                    rhs: value,
                    operator: span.wrap(Operator::Assign),
                };
                proof {
                    lemma_expression_view(Expression::Binary(Box::new(assignment)));
                }
                BinaryExpression::compile(&assignment, compiler, heap, span, chunk)
            },
            None => Expression::compile(&self, compiler, heap, span, chunk),
        }
    }
}

impl CompileAssign for Ident {
    open spec fn target_view(self) -> ExpressionView {
        ExpressionView::Ident(self.0@)
    }

    fn compile(
        self,
        compiler: &mut Compiler,
        heap: &mut Heap,
        span: Span,
        chunk: &mut Chunk,
        assign_value: Option<Positioned<Expression>>,
    ) -> (result: CompileResult<()>) {
        CompileAssign::compile(Expression::Ident(self), compiler, heap, span, chunk, assign_value)
    }
}

impl CompileAssign for IndexExpression {
    open spec fn target_view(self) -> ExpressionView {
        Expression::Index(Box::new(self))@
    }

    fn compile(
        self,
        compiler: &mut Compiler,
        heap: &mut Heap,
        span: Span,
        chunk: &mut Chunk,
        assign_value: Option<Positioned<Expression>>,
    ) -> (result: CompileResult<()>) {
        CompileAssign::compile(
            Expression::Index(Box::new(self)),
            compiler,
            heap,
            span,
            chunk,
            assign_value,
        )
    }
}

} // verus!
