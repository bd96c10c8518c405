//! Copies of the nodes of the syntax tree.

use vstd::prelude::*;
use super::syntax::{
    branch_views, expression_views, identifier_views, Assignment, Block,
    Condition, Expression, FunctionDefinition, Identifier, Loop, Statement, VariableDeclaration,
};

verus! {

fn clone_expression(expression: &Expression) -> (copy: Expression)
    ensures
        copy@ == expression@,
    decreases expression,
{
    match expression {
        Expression::Identifier(identifier) => Expression::Identifier(identifier.clone()),
        Expression::FunctionCall(identifier, arguments) => {
            let copies = clone_expressions(arguments);
            let copy = Expression::FunctionCall(identifier.clone(), copies);
            assert(copy@->FunctionCall_1 =~= expression_views(arguments@));
            assert(expression@->FunctionCall_1 =~= expression_views(arguments@));
            copy
        },
        Expression::Literal(literal) => Expression::Literal(literal.clone()),
        Expression::BinaryExpression(lhs, operator, rhs) => Expression::BinaryExpression(
            Box::new(clone_expression(lhs)),
            *operator,
            Box::new(clone_expression(rhs)),
        ),
    }
}

fn clone_expressions(expressions: &Vec<Expression>) -> (copies: Vec<Expression>)
    ensures
        expression_views(copies@) == expression_views(expressions@),
    decreases expressions,
{
    let mut copies: Vec<Expression> = Vec::with_capacity(expressions.len());
    let mut index: usize = 0;
    while index < expressions.len()
        invariant
            index <= expressions.len(),
            copies@.len() == index,
            forall|i: int| 0 <= i < index ==> copies@[i]@ == expressions@[i]@,
        decreases expressions.len() - index,
    {
        copies.push(clone_expression(&expressions[index]));
        index = index + 1;
    }
    assert(expression_views(copies@) =~= expression_views(expressions@));
    copies
}

fn clone_block(block: &Block) -> (copy: Block)
    ensures
        copy@ == block@,
    decreases block,
{
    let mut copies: Vec<Statement> = Vec::with_capacity(block.0.len());
    let mut index: usize = 0;
    while index < block.0.len()
        invariant
            index <= block.0.len(),
            copies@.len() == index,
            forall|i: int| 0 <= i < index ==> copies@[i]@ == block.0@[i]@,
        decreases block.0.len() - index,
    {
        copies.push(clone_statement(&block.0[index]));
        index = index + 1;
    }
    let copy = Block(copies);
    assert(copy@ =~= block@);
    copy
}

fn clone_identifiers(identifiers: &Vec<Identifier>) -> (copies: Vec<Identifier>)
    ensures
        identifier_views(copies@) == identifier_views(identifiers@),
{
    let mut copies: Vec<Identifier> = Vec::with_capacity(identifiers.len());
    let mut index: usize = 0;
    while index < identifiers.len()
        invariant
            index <= identifiers.len(),
            copies@.len() == index,
            forall|i: int| 0 <= i < index ==> copies@[i]@ == identifiers@[i]@,
        decreases identifiers.len() - index,
    {
        copies.push(identifiers[index].clone());
        index = index + 1;
    }
    assert(identifier_views(copies@) =~= identifier_views(identifiers@));
    copies
}

fn clone_condition(condition: &Condition) -> (copy: Condition)
    ensures
        copy@ == condition@,
    decreases condition,
{
    let mut copies: Vec<(Option<Expression>, Block)> = Vec::with_capacity(
        condition.branches.len(),
    );
    let mut index: usize = 0;
    while index < condition.branches.len()
        invariant
            index <= condition.branches.len(),
            copies@.len() == index,
            forall|i: int|
                0 <= i < index ==> branch_views(copies@)[i] == branch_views(
                    condition.branches@,
                )[i],
        decreases condition.branches.len() - index,
    {
        let branch = &condition.branches[index];
        let predicate = match &branch.0 {
            Some(predicate) => Some(clone_expression(predicate)),
            None => None,
        };
        let ghost before = branch_views(copies@);
        copies.push((predicate, clone_block(&branch.1)));
        assert forall|i: int| 0 <= i < index + 1 implies branch_views(copies@)[i] == branch_views(
            condition.branches@,
        )[i] by {
            if i < index {
                assert(branch_views(copies@)[i] == before[i]);
            }
        }
        index = index + 1;
    }
    let copy = Condition { branches: copies };
    assert(copy@ =~= condition@);
    copy
}

fn clone_statement(statement: &Statement) -> (copy: Statement)
    ensures
        copy@ == statement@,
    decreases statement,
{
    match statement {
        Statement::Expression(expression) => Statement::Expression(clone_expression(expression)),
        Statement::FunctionDefinition(definition) => {
            let copy = Statement::FunctionDefinition(
                FunctionDefinition {
                    name: definition.name.clone(),
                    args: clone_identifiers(&definition.args),
                    body: clone_block(&definition.body),
                },
            );
            assert(copy@->FunctionDefinition_0.args =~= identifier_views(definition.args@));
            assert(statement@->FunctionDefinition_0.args =~= identifier_views(definition.args@));
            copy
        },
        Statement::VariableDeclaration(declaration) => Statement::VariableDeclaration(
            VariableDeclaration {
                name: declaration.name.clone(),
                value: clone_expression(&declaration.value),
            },
        ),
        Statement::Condition(condition) => {
            let copy = Statement::Condition(clone_condition(condition));
            assert(copy@->Condition_0 =~= condition@);
            assert(statement@->Condition_0 =~= condition@);
            copy
        },
        Statement::Return(result) => Statement::Return(clone_expression(result)),
        Statement::Assignment(assignment) => Statement::Assignment(
            Assignment { lhs: assignment.lhs.clone(), rhs: clone_expression(&assignment.rhs) },
        ),
        Statement::Loop(loop_statement) => Statement::Loop(
            Loop {
                predicate_position: loop_statement.predicate_position,
                predicate: clone_expression(&loop_statement.predicate),
                block: clone_block(&loop_statement.block),
            },
        ),
    }
}

impl Clone for Expression {
    fn clone(&self) -> (copy: Self)
        ensures
            copy@ == self@,
    {
        clone_expression(self)
    }
}

impl Clone for Block {
    fn clone(&self) -> (copy: Self)
        ensures
            copy@ == self@,
    {
        clone_block(self)
    }
}

impl Clone for Statement {
    fn clone(&self) -> (copy: Self)
        ensures
            copy@ == self@,
    {
        clone_statement(self)
    }
}

impl Clone for Condition {
    fn clone(&self) -> (copy: Self)
        ensures
            copy@ == self@,
    {
        clone_condition(self)
    }
}

impl Clone for FunctionDefinition {
    fn clone(&self) -> (copy: Self)
        ensures
            copy@ == self@,
    {
        let copy = FunctionDefinition {
            name: self.name.clone(),
            args: clone_identifiers(&self.args),
            body: clone_block(&self.body),
        };
        assert(copy@.args =~= identifier_views(self.args@));
        assert(self@.args =~= identifier_views(self.args@));
        copy
    }
}

impl Clone for VariableDeclaration {
    fn clone(&self) -> (copy: Self)
        ensures
            copy@ == self@,
    {
        VariableDeclaration { name: self.name.clone(), value: clone_expression(&self.value) }
    }
}

impl Clone for Assignment {
    fn clone(&self) -> (copy: Self)
        ensures
            copy@ == self@,
    {
        Assignment { lhs: self.lhs.clone(), rhs: clone_expression(&self.rhs) }
    }
}

impl Clone for Loop {
    fn clone(&self) -> (copy: Self)
        ensures
            copy@ == self@,
    {
        Loop {
            predicate_position: self.predicate_position,
            predicate: clone_expression(&self.predicate),
            block: clone_block(&self.block),
        }
    }
}

} // verus!
