//! What lowering does, as functions on the views of the syntax tree and of
//! the block.

use vstd::prelude::*;
use super::error::CompileErrorView;
use super::stack_frame::Symbol;
use crate::ir::block::BlockView;
use crate::ir::instruction::InstructionView;
use crate::ir::label::LabelView;
use crate::ir::opcode::OpcodeView;
use crate::ir::{AssignmentTarget, JumpCondition, Slot};
use crate::parser::syntax::{
    ExpressionView, LiteralView, LoopView, StatementView,
};
use crate::parser::{ArithmeticOperator, BinaryOperator, ComparisonOperator};
use crate::value::ValueView;

verus! {

/// The block after a piece of the syntax tree was lowered, and the slot that
/// holds the piece's value or the error that stopped the lowering.
pub type Lowered = (BlockView, Result<Slot, CompileErrorView>);

pub open spec fn function_value_error() -> CompileErrorView {
    CompileErrorView::NotImplemented("function used as a value"@)
}

pub open spec fn division_error() -> CompileErrorView {
    CompileErrorView::NotImplemented("division"@)
}

pub open spec fn comparison_error() -> CompileErrorView {
    CompileErrorView::NotImplemented("comparison outside of a predicate"@)
}

pub open spec fn call_error() -> CompileErrorView {
    CompileErrorView::NotImplemented("calling a symbol that is not a function"@)
}

pub open spec fn assignment_error() -> CompileErrorView {
    CompileErrorView::NotImplemented("assignment to a function"@)
}

pub open spec fn frame_full_error() -> CompileErrorView {
    CompileErrorView::NotImplemented("too many stack variables"@)
}

/// The value that a literal stands for.
pub open spec fn literal_value(literal: LiteralView) -> ValueView {
    match literal {
        LiteralView::Integer(n) => ValueView::Integer(n),
        LiteralView::String(s) => ValueView::String(s),
    }
}

/// A literal becomes a constant.
pub open spec fn spec_compile_literal(block: BlockView, literal: LiteralView) -> Lowered {
    (block.push_op(OpcodeView::Literal(literal_value(literal))), Ok(block.next_slot()))
}

/// A name is read from the argument or the stack variable that it stands
/// for.
pub open spec fn spec_compile_identifier(block: BlockView, name: Seq<char>) -> Lowered {
    match block.frame.resolve(name) {
        None => (block, Err(CompileErrorView::UnresolvedSymbol(name))),
        Some(Symbol::Function(_, _)) => (block, Err(function_value_error())),
        Some(_) => (block.resolve_to_slot(name).0, Ok(block.next_slot())),
    }
}

/// The jump condition of a comparison.
pub open spec fn comparison_condition(operator: ComparisonOperator, lhs: Slot, rhs: Slot) -> JumpCondition {
    match operator {
        ComparisonOperator::GreaterThan => JumpCondition::Greater(lhs, rhs),
        ComparisonOperator::LessThan => JumpCondition::Less(lhs, rhs),
        ComparisonOperator::Equal => JumpCondition::Equal(lhs, rhs),
        ComparisonOperator::NotEqual => JumpCondition::NotEqual(lhs, rhs),
        ComparisonOperator::GreaterOrEqual => JumpCondition::GreaterOrEqual(lhs, rhs),
        ComparisonOperator::LessOrEqual => JumpCondition::LessOrEqual(lhs, rhs),
    }
}

/// The jumps of a predicate: to `true_target` where the condition holds,
/// then to `false_target` if there is one.  The value is the slot of the
/// first jump, which no instruction defines.
pub open spec fn spec_predicate_jumps(
    block: BlockView,
    condition: JumpCondition,
    true_target: LabelView,
    false_target: Option<LabelView>,
) -> Lowered {
    let jumped = block.push_op(OpcodeView::Jump(condition, true_target));
    match false_target {
        Some(false_target) => (
            jumped.push_op(OpcodeView::Jump(JumpCondition::Unconditional, false_target)),
            Ok(block.next_slot()),
        ),
        None => (jumped, Ok(block.next_slot())),
    }
}

/// The target of an assignment to what a name stands for.
pub open spec fn spec_assignment_target(symbol: Option<Symbol>, name: Seq<char>) -> Result<
    AssignmentTarget,
    CompileErrorView,
> {
    match symbol {
        None => Err(CompileErrorView::UnresolvedSymbol(name)),
        Some(Symbol::Argument(index)) => Ok(AssignmentTarget::FunctionArgument(index)),
        Some(Symbol::StackVariable(offset)) => Ok(AssignmentTarget::StackVariable(offset)),
        Some(Symbol::Function(_, _)) => Err(assignment_error()),
    }
}

/// The call of what a name stands for, with the arguments in these slots.
pub open spec fn spec_call(block: BlockView, name: Seq<char>, arguments: Seq<Slot>) -> Lowered {
    match block.frame.resolve(name) {
        None => (block, Err(CompileErrorView::UnresolvedSymbol(name))),
        Some(Symbol::Function(address, arity)) => if arguments.len() != arity {
            (block, Err(CompileErrorView::IncorrectArity(name, arity, arguments.len() as usize)))
        } else {
            (block.push_op(OpcodeView::CallFunction(address, arguments)), Ok(block.next_slot()))
        },
        Some(_) => (block, Err(call_error())),
    }
}

/// An expression is lowered to the operations that compute it.
pub open spec fn spec_compile_expression(block: BlockView, expression: ExpressionView) -> Lowered
    decreases expression, 0nat, 0nat,
{
    match expression {
        ExpressionView::Identifier(name) => spec_compile_identifier(block, name),
        ExpressionView::FunctionCall(name, arguments) => {
            let (block, slots) = spec_compile_arguments(block, arguments, 0, seq![]);
            match slots {
                Err(error) => (block, Err(error)),
                Ok(slots) => spec_call(block, name, slots),
            }
        },
        ExpressionView::Literal(literal) => spec_compile_literal(block, literal),
        ExpressionView::BinaryExpression(lhs, operator, rhs) => match operator {
            BinaryOperator::ComparisonOperator(_) => (block, Err(comparison_error())),
            BinaryOperator::ArithmeticOperator(ArithmeticOperator::Divide) => (
                block,
                Err(division_error()),
            ),
            BinaryOperator::ArithmeticOperator(_) => {
                let (block, lhs_slot) = spec_compile_expression(block, *lhs);
                match lhs_slot {
                    Err(error) => (block, Err(error)),
                    Ok(lhs_slot) => {
                        let (block, rhs_slot) = spec_compile_expression(block, *rhs);
                        match rhs_slot {
                            Err(error) => (block, Err(error)),
                            Ok(rhs_slot) => (
                                block.push_op(
                                    OpcodeView::BinaryOperator(lhs_slot, operator, rhs_slot),
                                ),
                                Ok(block.next_slot()),
                            ),
                        }
                    },
                }
            },
        },
    }
}

/// The arguments of a call from index `from` on are lowered in order; their
/// slots are added to `slots`.
pub open spec fn spec_compile_arguments(
    block: BlockView,
    arguments: Seq<ExpressionView>,
    from: int,
    slots: Seq<Slot>,
) -> (BlockView, Result<Seq<Slot>, CompileErrorView>)
    decreases arguments, arguments.len() - from, 0nat,
{
    if 0 <= from < arguments.len() {
        let (block, slot) = spec_compile_expression(block, arguments[from]);
        match slot {
            Err(error) => (block, Err(error)),
            Ok(slot) => spec_compile_arguments(block, arguments, from + 1, slots.push(slot)),
        }
    } else {
        (block, Ok(slots))
    }
}

/// A predicate is lowered to a conditional jump.  A comparison becomes the
/// condition of the jump; any other expression is computed and tested
/// against zero.
pub open spec fn spec_compile_predicate(
    block: BlockView,
    predicate: ExpressionView,
    true_target: LabelView,
    false_target: Option<LabelView>,
) -> Lowered {
    match predicate {
        ExpressionView::BinaryExpression(
            lhs,
            BinaryOperator::ComparisonOperator(operator),
            rhs,
        ) => {
            let (block, lhs_slot) = spec_compile_expression(block, *lhs);
            match lhs_slot {
                Err(error) => (block, Err(error)),
                Ok(lhs_slot) => {
                    let (block, rhs_slot) = spec_compile_expression(block, *rhs);
                    match rhs_slot {
                        Err(error) => (block, Err(error)),
                        Ok(rhs_slot) => spec_predicate_jumps(
                            block,
                            comparison_condition(operator, lhs_slot, rhs_slot),
                            true_target,
                            false_target,
                        ),
                    }
                },
            }
        },
        _ => {
            let (block, slot) = spec_compile_expression(block, predicate);
            match slot {
                Err(error) => (block, Err(error)),
                Ok(slot) => spec_predicate_jumps(
                    block,
                    JumpCondition::NotZero(slot),
                    true_target,
                    false_target,
                ),
            }
        },
    }
}

/// `return`: the value is moved to the return register, and the function is
/// left.
pub open spec fn spec_compile_return_statement(block: BlockView, result: ExpressionView) -> Lowered {
    let (block, slot) = spec_compile_expression(block, result);
    match slot {
        Err(error) => (block, Err(error)),
        Ok(slot) => (
            block.push_op(OpcodeView::SetReturnValue(slot)).push_op(OpcodeView::Return),
            Ok(slot),
        ),
    }
}

/// An assignment writes the value of the right side to the argument or the
/// stack variable that the name stands for.
pub open spec fn spec_compile_assignment_statement(
    block: BlockView,
    lhs: Seq<char>,
    rhs: ExpressionView,
) -> Lowered {
    let (block, slot) = spec_compile_expression(block, rhs);
    match slot {
        Err(error) => (block, Err(error)),
        Ok(slot) => match spec_assignment_target(block.frame.resolve(lhs), lhs) {
            Err(error) => (block, Err(error)),
            Ok(target) => (block.push(InstructionView::Assign(target, slot)), Ok(slot)),
        },
    }
}

/// `let`: the value is computed, then the variable is declared with it.
pub open spec fn spec_compile_variable_declaration(
    block: BlockView,
    name: Seq<char>,
    value: ExpressionView,
) -> Lowered {
    let (block, slot) = spec_compile_expression(block, value);
    match slot {
        Err(error) => (block, Err(error)),
        Ok(slot) => if block.frame.total_slots() < usize::MAX {
            (block.insert_stack_variable(name, slot), Ok(block.next_slot()))
        } else {
            (block, Err(frame_full_error()))
        },
    }
}

/// A statement is lowered; the slot is the statement's value.  A function
/// definition inside a function has the value zero.
pub open spec fn spec_compile_statement(block: BlockView, statement: StatementView) -> Lowered
    decreases statement, 0nat, 0nat,
{
    match statement {
        StatementView::Expression(expression) => spec_compile_expression(block, expression),
        StatementView::FunctionDefinition(_) => spec_compile_literal(
            block,
            LiteralView::Integer(0),
        ),
        StatementView::VariableDeclaration(name, value) => spec_compile_variable_declaration(
            block,
            name,
            value,
        ),
        StatementView::Condition(branches) => {
            let end_label = block.next_label("condition end"@);
            let (block, results) = spec_compile_branches(
                block.with_label("condition end"@),
                branches,
                0,
                end_label,
                seq![],
            );
            match results {
                Err(error) => (block, Err(error)),
                Ok(results) => (
                    block.set_label(end_label).push_op(OpcodeView::PhiEnd(results)),
                    Ok(block.set_label(end_label).next_slot()),
                ),
            }
        },
        StatementView::Return(result) => spec_compile_return_statement(block, result),
        StatementView::Assignment(lhs, rhs) => spec_compile_assignment_statement(
            block,
            lhs,
            rhs,
        ),
        StatementView::Loop(loop_statement) => {
            let start_label = block.next_label("loop start"@);
            let test_label = block.with_label("loop start"@).next_label("loop test"@);
            let block = block.with_label("loop start"@).with_label("loop test"@).push_op(
                OpcodeView::Jump(JumpCondition::Unconditional, test_label),
            ).set_label(start_label);
            let (block, body) = spec_compile_block(block, loop_statement.block, 0, None);
            match body {
                Err(error) => (block, Err(error)),
                Ok(_) => spec_compile_predicate(
                    block.set_label(test_label),
                    loop_statement.predicate,
                    start_label,
                    None,
                ),
            }
        },
    }
}

/// The statements of a block from index `from` on are lowered in order.
/// The value is that of the last statement; `last` is the value of the
/// statement before index `from`, if there is one.  An empty block has the
/// value zero.
pub open spec fn spec_compile_block(
    block: BlockView,
    statements: Seq<StatementView>,
    from: int,
    last: Option<Slot>,
) -> Lowered
    decreases statements, statements.len() - from, 0nat,
{
    if 0 <= from < statements.len() {
        let (block, slot) = spec_compile_statement(block, statements[from]);
        match slot {
            Err(error) => (block, Err(error)),
            Ok(slot) => spec_compile_block(block, statements, from + 1, Some(slot)),
        }
    } else {
        match last {
            Some(slot) => (block, Ok(slot)),
            None => spec_compile_literal(block, LiteralView::Integer(0)),
        }
    }
}

/// The branches of a condition from index `from` on are lowered in order.
///
/// A branch with a predicate starts with the predicate's jumps: to the
/// branch's code where the predicate holds, else to the next branch, or to
/// the end of the condition from the last branch.  After the code of every
/// branch but the last comes a jump to the end of the condition.  The slots
/// of the branches' values are added to `results`.
pub open spec fn spec_compile_branches(
    block: BlockView,
    branches: Seq<(Option<ExpressionView>, Seq<StatementView>)>,
    from: int,
    end_label: LabelView,
    results: Seq<Slot>,
) -> (BlockView, Result<Seq<Slot>, CompileErrorView>)
    decreases branches, branches.len() - from, 0nat,
{
    if 0 <= from < branches.len() {
        let is_last_branch = from + 1 == branches.len();
        let next_label = block.next_label("condition next"@);
        let block = if is_last_branch {
            block
        } else {
            block.with_label("condition next"@)
        };
        let (block, tested) = match branches[from].0 {
            Some(predicate) => {
                let block_label = block.next_label("condition block"@);
                let (block, jumped) = spec_compile_predicate(
                    block.with_label("condition block"@),
                    predicate,
                    block_label,
                    if is_last_branch {
                        Some(end_label)
                    } else {
                        Some(next_label)
                    },
                );
                match jumped {
                    Err(error) => (block, Err(error)),
                    Ok(slot) => (block.set_label(block_label), Ok(slot)),
                }
            },
            None => (block, Ok(block.next_slot())),
        };
        match tested {
            Err(error) => (block, Err(error)),
            Ok(_) => {
                let (block, result) = spec_compile_block(block, branches[from].1, 0, None);
                match result {
                    Err(error) => (block, Err(error)),
                    Ok(result) => spec_compile_branches(
                        if is_last_branch {
                            block
                        } else {
                            block.push_op(
                                OpcodeView::Jump(JumpCondition::Unconditional, end_label),
                            ).set_label(next_label)
                        },
                        branches,
                        from + 1,
                        end_label,
                        results.push(result),
                    ),
                }
            },
        }
    } else {
        (block, Ok(results))
    }
}

/// Whether a statement is a `return`.
pub open spec fn is_return(statement: StatementView) -> bool {
    statement is Return
}

/// The statements of a function's body from index `from` on are lowered in
/// order, up to and with the first `return`.  The second component tells
/// whether the lowering ended with a `return`.
pub open spec fn spec_compile_body_statements(
    block: BlockView,
    statements: Seq<StatementView>,
    from: int,
    last: Option<Slot>,
) -> (BlockView, Result<(Option<Slot>, bool), CompileErrorView>)
    decreases statements.len() - from,
{
    if 0 <= from < statements.len() {
        let (block, slot) = spec_compile_statement(block, statements[from]);
        match slot {
            Err(error) => (block, Err(error)),
            Ok(slot) => if is_return(statements[from]) {
                (block, Ok((Some(slot), true)))
            } else {
                spec_compile_body_statements(block, statements, from + 1, Some(slot))
            },
        }
    } else {
        (block, Ok((last, false)))
    }
}

/// The body of a function is lowered.  Where the statements do not end with
/// a `return`, the value of the last statement is returned, or zero from an
/// empty body.
pub open spec fn spec_compile_function_body(block: BlockView, statements: Seq<StatementView>) -> Lowered {
    let (block, lowered) = spec_compile_body_statements(block, statements, 0, None);
    match lowered {
        Err(error) => (block, Err(error)),
        Ok((last, returned)) => {
            let (block, result) = match last {
                Some(slot) => (block, slot),
                None => (
                    spec_compile_literal(block, LiteralView::Integer(0)).0,
                    block.next_slot(),
                ),
            };
            if returned {
                (block, Ok(result))
            } else {
                (
                    block.push_op(OpcodeView::SetReturnValue(result)).push_op(OpcodeView::Return),
                    Ok(result),
                )
            }
        },
    }
}

} // verus!

verus! {

/// A binary operation: the operands are lowered, the left one first, then
/// the operation.  Division is not implemented, and a comparison has no
/// value outside of a predicate.
pub open spec fn spec_compile_binary_operator_expression(
    block: BlockView,
    lhs: ExpressionView,
    operator: BinaryOperator,
    rhs: ExpressionView,
) -> Lowered {
    spec_compile_expression(
        block,
        ExpressionView::BinaryExpression(Box::new(lhs), operator, Box::new(rhs)),
    )
}

/// A call: the arguments are lowered in order, then the call of the
/// function that the name stands for, which has to expect as many
/// arguments as are given.
pub open spec fn spec_compile_function_call(
    block: BlockView,
    name: Seq<char>,
    arguments: Seq<ExpressionView>,
) -> Lowered {
    spec_compile_expression(block, ExpressionView::FunctionCall(name, arguments))
}

/// A condition: the branches in order, then the label of the condition's
/// end and the join of the branches' values.
pub open spec fn spec_compile_condition_statement(
    block: BlockView,
    branches: Seq<(Option<ExpressionView>, Seq<StatementView>)>,
) -> Lowered {
    spec_compile_statement(block, StatementView::Condition(branches))
}

/// A loop: a jump to the test, the label of the loop's start, the body, the
/// label of the test, and the predicate's jump back to the start.
pub open spec fn spec_compile_loop_statement(block: BlockView, loop_statement: LoopView) -> Lowered {
    spec_compile_statement(block, StatementView::Loop(loop_statement))
}

} // verus!
