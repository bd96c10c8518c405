//! The syntax tree, and the mathematical view of each of its nodes.

use vstd::prelude::*;

verus! {

/// A name.  Its view is the sequence of its characters.
#[derive(Debug, Eq, Hash, PartialEq)]
pub struct Identifier(pub String);

impl View for Identifier {
    type V = Seq<char>;

    open spec fn view(&self) -> Seq<char> {
        self.0@
    }
}

impl Clone for Identifier {
    fn clone(&self) -> (copy: Self)
        ensures
            copy == *self,
    {
        Identifier(self.0.clone())
    }
}

impl Identifier {
    pub fn new(name: &str) -> (identifier: Identifier)
        ensures
            identifier@ == name@,
    {
        Identifier(name.to_owned())
    }

    /// Whether two identifiers spell the same name.
    pub fn same_name(&self, other: &Identifier) -> (same: bool)
        ensures
            same == (self@ == other@),
    {
        self.0 == other.0
    }
}

#[derive(Debug, PartialEq, Eq)]
pub enum Literal {
    String(String),
    Integer(i64),
}

pub enum LiteralView {
    String(Seq<char>),
    Integer(i64),
}

impl View for Literal {
    type V = LiteralView;

    open spec fn view(&self) -> LiteralView {
        match self {
            Literal::String(s) => LiteralView::String(s@),
            Literal::Integer(n) => LiteralView::Integer(*n),
        }
    }
}

impl Clone for Literal {
    fn clone(&self) -> (copy: Self)
        ensures
            copy == *self,
    {
        match self {
            Literal::String(s) => Literal::String(s.clone()),
            Literal::Integer(n) => Literal::Integer(*n),
        }
    }
}

#[derive(Clone, Copy, Debug, PartialEq, Eq, Structural)]
pub enum ArithmeticOperator {
    Add,
    Subtract,
    Multiply,
    Divide,
}

#[derive(Clone, Copy, Debug, PartialEq, Eq, Structural)]
pub enum ComparisonOperator {
    Equal,
    NotEqual,
    LessThan,
    LessOrEqual,
    GreaterThan,
    GreaterOrEqual,
}

#[derive(Clone, Copy, Debug, PartialEq, Eq, Structural)]
pub enum BinaryOperator {
    ArithmeticOperator(ArithmeticOperator),
    ComparisonOperator(ComparisonOperator),
}

#[derive(Debug, PartialEq)]
pub enum Expression {
    Identifier(Identifier),
    FunctionCall(Identifier, Vec<Expression>),
    Literal(Literal),
    BinaryExpression(Box<Expression>, BinaryOperator, Box<Expression>),
}

pub enum ExpressionView {
    Identifier(Seq<char>),
    FunctionCall(Seq<char>, Seq<ExpressionView>),
    Literal(LiteralView),
    BinaryExpression(Box<ExpressionView>, BinaryOperator, Box<ExpressionView>),
}

/// The view of an expression.
pub open spec fn expression_view(expression: Expression) -> ExpressionView
    decreases expression,
{
    match expression {
        Expression::Identifier(identifier) => ExpressionView::Identifier(identifier@),
        Expression::FunctionCall(identifier, arguments) => ExpressionView::FunctionCall(
            identifier@,
            Seq::new(
                arguments@.len(),
                |i: int|
                    if 0 <= i < arguments@.len() {
                        expression_view(arguments@[i])
                    } else {
                        arbitrary()
                    },
            ),
        ),
        Expression::Literal(literal) => ExpressionView::Literal(literal@),
        Expression::BinaryExpression(lhs, operator, rhs) => ExpressionView::BinaryExpression(
            Box::new(expression_view(*lhs)),
            operator,
            Box::new(expression_view(*rhs)),
        ),
    }
}

impl View for Expression {
    type V = ExpressionView;

    open spec fn view(&self) -> ExpressionView {
        expression_view(*self)
    }
}

#[derive(Debug, PartialEq)]
pub struct Block(pub Vec<Statement>);

#[derive(Debug, PartialEq)]
pub struct FunctionDefinition {
    pub name: Identifier,
    pub args: Vec<Identifier>,
    pub body: Block,
}

#[derive(Debug, PartialEq)]
pub struct VariableDeclaration {
    pub name: Identifier,
    pub value: Expression,
}

#[derive(Debug, PartialEq)]
pub struct Assignment {
    pub lhs: Identifier,
    pub rhs: Expression,
}

/// An `if` with its `else if` and `else` branches, in order.  A branch
/// without a predicate is an `else`.
#[derive(Debug, PartialEq)]
pub struct Condition {
    pub branches: Vec<(Option<Expression>, Block)>,
}

#[derive(Clone, Copy, Debug, PartialEq, Eq, Structural)]
pub enum LoopPredicatePosition {
    /// A `while` loop.
    BeforeBlock,
}

#[derive(Debug, PartialEq)]
pub struct Loop {
    pub predicate_position: LoopPredicatePosition,
    pub predicate: Expression,
    pub block: Block,
}

#[derive(Debug, PartialEq)]
pub enum Statement {
    Expression(Expression),
    FunctionDefinition(FunctionDefinition),
    VariableDeclaration(VariableDeclaration),
    Condition(Condition),
    Return(Expression),
    Assignment(Assignment),
    Loop(Loop),
}

pub struct FunctionDefinitionView {
    pub name: Seq<char>,
    pub args: Seq<Seq<char>>,
    pub body: Seq<StatementView>,
}

pub struct LoopView {
    pub predicate_position: LoopPredicatePosition,
    pub predicate: ExpressionView,
    pub block: Seq<StatementView>,
}

pub enum StatementView {
    Expression(ExpressionView),
    FunctionDefinition(FunctionDefinitionView),
    VariableDeclaration(Seq<char>, ExpressionView),
    Condition(Seq<(Option<ExpressionView>, Seq<StatementView>)>),
    Return(ExpressionView),
    Assignment(Seq<char>, ExpressionView),
    Loop(LoopView),
}

/// The view of a block: the views of its statements, in order.
pub open spec fn block_view(block: Block) -> Seq<StatementView>
    decreases block,
{
    Seq::new(
        block.0@.len(),
        |i: int|
            if 0 <= i < block.0@.len() {
                statement_view(block.0@[i])
            } else {
                arbitrary()
            },
    )
}

/// The view of a statement.
pub open spec fn statement_view(statement: Statement) -> StatementView
    decreases statement,
{
    match statement {
        Statement::Expression(expression) => StatementView::Expression(expression@),
        Statement::FunctionDefinition(definition) => StatementView::FunctionDefinition(
            FunctionDefinitionView {
                name: definition.name@,
                args: Seq::new(definition.args@.len(), |i: int| definition.args@[i]@),
                body: block_view(definition.body),
            },
        ),
        Statement::VariableDeclaration(declaration) => StatementView::VariableDeclaration(
            declaration.name@,
            declaration.value@,
        ),
        Statement::Condition(condition) => StatementView::Condition(
            Seq::new(
                condition.branches@.len(),
                |i: int|
                    if 0 <= i < condition.branches@.len() {
                        (
                            match condition.branches@[i].0 {
                                Some(predicate) => Some(predicate@),
                                None => None,
                            },
                            block_view(condition.branches@[i].1),
                        )
                    } else {
                        arbitrary()
                    },
            ),
        ),
        Statement::Return(expression) => StatementView::Return(expression@),
        Statement::Assignment(assignment) => StatementView::Assignment(
            assignment.lhs@,
            assignment.rhs@,
        ),
        Statement::Loop(loop_statement) => StatementView::Loop(
            LoopView {
                predicate_position: loop_statement.predicate_position,
                predicate: loop_statement.predicate@,
                block: block_view(loop_statement.block),
            },
        ),
    }
}

impl View for Block {
    type V = Seq<StatementView>;

    open spec fn view(&self) -> Seq<StatementView> {
        block_view(*self)
    }
}

impl View for Statement {
    type V = StatementView;

    open spec fn view(&self) -> StatementView {
        statement_view(*self)
    }
}

impl View for FunctionDefinition {
    type V = FunctionDefinitionView;

    open spec fn view(&self) -> FunctionDefinitionView {
        FunctionDefinitionView {
            name: self.name@,
            args: Seq::new(self.args@.len(), |i: int| self.args@[i]@),
            body: self.body@,
        }
    }
}

impl View for VariableDeclaration {
    type V = (Seq<char>, ExpressionView);

    open spec fn view(&self) -> (Seq<char>, ExpressionView) {
        (self.name@, self.value@)
    }
}

impl View for Assignment {
    type V = (Seq<char>, ExpressionView);

    open spec fn view(&self) -> (Seq<char>, ExpressionView) {
        (self.lhs@, self.rhs@)
    }
}

/// The views of the branches of a condition, in order.
pub open spec fn branch_views(branches: Seq<(Option<Expression>, Block)>) -> Seq<
    (Option<ExpressionView>, Seq<StatementView>),
> {
    Seq::new(
        branches.len(),
        |i: int|
            (
                match branches[i].0 {
                    Some(predicate) => Some(predicate@),
                    None => None,
                },
                branches[i].1@,
            ),
    )
}

impl View for Condition {
    type V = Seq<(Option<ExpressionView>, Seq<StatementView>)>;

    open spec fn view(&self) -> Seq<(Option<ExpressionView>, Seq<StatementView>)> {
        branch_views(self.branches@)
    }
}

impl View for Loop {
    type V = LoopView;

    open spec fn view(&self) -> LoopView {
        LoopView {
            predicate_position: self.predicate_position,
            predicate: self.predicate@,
            block: self.block@,
        }
    }
}

/// The views of a list of expressions, in order.
pub open spec fn expression_views(expressions: Seq<Expression>) -> Seq<ExpressionView> {
    Seq::new(expressions.len(), |i: int| expressions[i]@)
}

/// The views of a list of statements, in order.
pub open spec fn statement_views(statements: Seq<Statement>) -> Seq<StatementView> {
    Seq::new(statements.len(), |i: int| statements[i]@)
}

/// The views of a list of identifiers, in order.
pub open spec fn identifier_views(identifiers: Seq<Identifier>) -> Seq<Seq<char>> {
    Seq::new(identifiers.len(), |i: int| identifiers[i]@)
}

} // verus!
