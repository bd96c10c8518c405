//! What holds of the returns of every lowered function.

use vstd::prelude::*;
use super::laws::empty_block;
use super::lowering::{
    spec_assignment_target, spec_compile_arguments, spec_compile_assignment_statement,
    spec_compile_block, spec_compile_body_statements, spec_compile_branches,
    spec_compile_expression, spec_compile_function_body, spec_compile_identifier,
    spec_compile_literal, spec_compile_predicate, spec_compile_return_statement,
    spec_compile_statement, spec_compile_variable_declaration, spec_predicate_jumps,
};
use super::stack_frame::{StackFrameView, Symbol};
use crate::codegen::x86_64::{leaves_function, sets_return_value, unpaired_return_value};
use crate::ir::block::BlockView;
use crate::ir::instruction::InstructionView;
use crate::ir::label::LabelView;
use crate::ir::opcode::OpcodeView;
use crate::ir::{AssignmentTarget, JumpCondition, Slot};
use crate::parser::syntax::{ExpressionView, LiteralView, StatementView};
use crate::parser::{ArithmeticOperator, BinaryOperator};

verus! {

/// Whether each instruction that sets the return value is followed by one
/// that leaves the function.
pub open spec fn well_paired(instructions: Seq<InstructionView>) -> bool {
    forall|i: int| !unpaired_return_value(instructions, i)
}

/// Whether a piece of lowering kept the returns paired.
pub open spec fn keeps_pairs(before: BlockView, after: BlockView) -> bool {
    well_paired(before.instructions) ==> well_paired(after.instructions)
}

/// An instruction that does not set the return value keeps the returns
/// paired.
proof fn lemma_push_keeps_pairs(block: BlockView, instruction: InstructionView)
    requires
        !sets_return_value(instruction),
    ensures
        keeps_pairs(block, block.push(instruction)),
{
    let after = block.push(instruction);
    if well_paired(block.instructions) {
        assert forall|i: int| !unpaired_return_value(after.instructions, i) by {
            if 0 <= i < block.instructions.len() {
                assert(!unpaired_return_value(block.instructions, i));
                assert(after.instructions[i] == block.instructions[i]);
                if i + 1 < block.instructions.len() {
                    assert(after.instructions[i + 1] == block.instructions[i + 1]);
                }
            }
        }
    }
}

/// Setting the return value and leaving the function, one after the other,
/// keeps the returns paired.
proof fn lemma_push_return_keeps_pairs(block: BlockView, slot: Slot)
    ensures
        keeps_pairs(
            block,
            block.push_op(OpcodeView::SetReturnValue(slot)).push_op(OpcodeView::Return),
        ),
        leaves_function(
            block.push_op(OpcodeView::SetReturnValue(slot)).push_op(
                OpcodeView::Return,
            ).instructions.last(),
        ),
{
    let set = block.push_op(OpcodeView::SetReturnValue(slot));
    let after = set.push_op(OpcodeView::Return);
    if well_paired(block.instructions) {
        assert forall|i: int| !unpaired_return_value(after.instructions, i) by {
            if 0 <= i < block.instructions.len() {
                assert(!unpaired_return_value(block.instructions, i));
                assert(after.instructions[i] == block.instructions[i]);
                if i + 1 < block.instructions.len() {
                    assert(after.instructions[i + 1] == block.instructions[i + 1]);
                }
            }
        }
    }
}

proof fn lemma_keeps_pairs_trans(first: BlockView, second: BlockView, third: BlockView)
    requires
        keeps_pairs(first, second),
        keeps_pairs(second, third),
    ensures
        keeps_pairs(first, third),
{
}

proof fn lemma_literal_keeps_pairs(block: BlockView, literal: LiteralView)
    ensures
        keeps_pairs(block, spec_compile_literal(block, literal).0),
{
    lemma_push_keeps_pairs(
        block,
        InstructionView::Opcode {
            destination: block.next_slot(),
            opcode: OpcodeView::Literal(super::lowering::literal_value(literal)),
        },
    );
}

proof fn lemma_identifier_keeps_pairs(block: BlockView, name: Seq<char>)
    ensures
        keeps_pairs(block, spec_compile_identifier(block, name).0),
{
    match block.frame.resolve(name) {
        Some(Symbol::Argument(index)) => {
            lemma_push_keeps_pairs(
                block,
                InstructionView::Opcode {
                    destination: block.next_slot(),
                    opcode: OpcodeView::FunctionArgument(index),
                },
            );
        },
        Some(Symbol::StackVariable(offset)) => {
            lemma_push_keeps_pairs(
                block,
                InstructionView::Opcode {
                    destination: block.next_slot(),
                    opcode: OpcodeView::StackVariable(offset),
                },
            );
        },
        _ => {},
    }
}

/// Lowering an expression keeps the returns paired.
pub proof fn lemma_expression_keeps_pairs(block: BlockView, expression: ExpressionView)
    ensures
        keeps_pairs(block, spec_compile_expression(block, expression).0),
    decreases expression, 0nat, 0nat,
{
    match expression {
        ExpressionView::Identifier(name) => {
            lemma_identifier_keeps_pairs(block, name);
        },
        ExpressionView::FunctionCall(name, arguments) => {
            lemma_arguments_keep_pairs(block, arguments, 0, seq![]);
            let (after, slots) = spec_compile_arguments(block, arguments, 0, seq![]);
            match slots {
                Ok(slots) => {
                    match after.frame.resolve(name) {
                        Some(Symbol::Function(address, arity)) => {
                            if slots.len() == arity {
                                lemma_push_keeps_pairs(
                                    after,
                                    InstructionView::Opcode {
                                        destination: after.next_slot(),
                                        opcode: OpcodeView::CallFunction(address, slots),
                                    },
                                );
                            }
                        },
                        _ => {},
                    }
                },
                Err(_) => {},
            }
        },
        ExpressionView::Literal(literal) => {
            lemma_literal_keeps_pairs(block, literal);
        },
        ExpressionView::BinaryExpression(lhs, operator, rhs) => match operator {
            BinaryOperator::ComparisonOperator(_) => {},
            BinaryOperator::ArithmeticOperator(ArithmeticOperator::Divide) => {},
            BinaryOperator::ArithmeticOperator(_) => {
                lemma_expression_keeps_pairs(block, *lhs);
                let (first, lhs_slot) = spec_compile_expression(block, *lhs);
                if lhs_slot is Ok {
                    lemma_expression_keeps_pairs(first, *rhs);
                    let (second, rhs_slot) = spec_compile_expression(first, *rhs);
                    if rhs_slot is Ok {
                        lemma_push_keeps_pairs(
                            second,
                            InstructionView::Opcode {
                                destination: second.next_slot(),
                                opcode: OpcodeView::BinaryOperator(
                                    lhs_slot->Ok_0,
                                    operator,
                                    rhs_slot->Ok_0,
                                ),
                            },
                        );
                    }
                }
            },
        },
    }
}

proof fn lemma_arguments_keep_pairs(
    block: BlockView,
    arguments: Seq<ExpressionView>,
    from: int,
    slots: Seq<Slot>,
)
    ensures
        keeps_pairs(block, spec_compile_arguments(block, arguments, from, slots).0),
    decreases arguments, arguments.len() - from, 0nat,
{
    if 0 <= from < arguments.len() {
        lemma_expression_keeps_pairs(block, arguments[from]);
        let (next, slot) = spec_compile_expression(block, arguments[from]);
        if slot is Ok {
            lemma_arguments_keep_pairs(next, arguments, from + 1, slots.push(slot->Ok_0));
        }
    }
}

proof fn lemma_predicate_jumps_keep_pairs(
    block: BlockView,
    condition: JumpCondition,
    true_target: LabelView,
    false_target: Option<LabelView>,
)
    ensures
        keeps_pairs(block, spec_predicate_jumps(block, condition, true_target, false_target).0),
{
    let first = InstructionView::Opcode {
        destination: block.next_slot(),
        opcode: OpcodeView::Jump(condition, true_target),
    };
    lemma_push_keeps_pairs(block, first);
    match false_target {
        Some(false_target) => {
            lemma_push_keeps_pairs(
                block.push(first),
                InstructionView::Opcode {
                    destination: block.push(first).next_slot(),
                    opcode: OpcodeView::Jump(JumpCondition::Unconditional, false_target),
                },
            );
        },
        None => {},
    }
}

proof fn lemma_predicate_keeps_pairs(
    block: BlockView,
    predicate: ExpressionView,
    true_target: LabelView,
    false_target: Option<LabelView>,
)
    ensures
        keeps_pairs(
            block,
            spec_compile_predicate(block, predicate, true_target, false_target).0,
        ),
{
    match predicate {
        ExpressionView::BinaryExpression(lhs, BinaryOperator::ComparisonOperator(operator), rhs) => {
            lemma_expression_keeps_pairs(block, *lhs);
            let (first, lhs_slot) = spec_compile_expression(block, *lhs);
            if lhs_slot is Ok {
                lemma_expression_keeps_pairs(first, *rhs);
                let (second, rhs_slot) = spec_compile_expression(first, *rhs);
                if rhs_slot is Ok {
                    lemma_predicate_jumps_keep_pairs(
                        second,
                        super::lowering::comparison_condition(
                            operator,
                            lhs_slot->Ok_0,
                            rhs_slot->Ok_0,
                        ),
                        true_target,
                        false_target,
                    );
                }
            }
        },
        _ => {
            lemma_expression_keeps_pairs(block, predicate);
            let (first, slot) = spec_compile_expression(block, predicate);
            if slot is Ok {
                lemma_predicate_jumps_keep_pairs(
                    first,
                    JumpCondition::NotZero(slot->Ok_0),
                    true_target,
                    false_target,
                );
            }
        },
    }
}

proof fn lemma_return_keeps_pairs(block: BlockView, result: ExpressionView)
    ensures
        keeps_pairs(block, spec_compile_return_statement(block, result).0),
        spec_compile_return_statement(block, result).1 is Ok ==> leaves_function(
            spec_compile_return_statement(block, result).0.instructions.last(),
        ),
{
    lemma_expression_keeps_pairs(block, result);
    let (first, slot) = spec_compile_expression(block, result);
    if slot is Ok {
        lemma_push_return_keeps_pairs(first, slot->Ok_0);
    }
}

proof fn lemma_assignment_keeps_pairs(block: BlockView, lhs: Seq<char>, rhs: ExpressionView)
    ensures
        keeps_pairs(block, spec_compile_assignment_statement(block, lhs, rhs).0),
{
    lemma_expression_keeps_pairs(block, rhs);
    let (first, slot) = spec_compile_expression(block, rhs);
    if slot is Ok {
        match spec_assignment_target(first.frame.resolve(lhs), lhs) {
            Ok(target) => {
                lemma_push_keeps_pairs(first, InstructionView::Assign(target, slot->Ok_0));
            },
            Err(_) => {},
        }
    }
}

proof fn lemma_declaration_keeps_pairs(block: BlockView, name: Seq<char>, value: ExpressionView)
    ensures
        keeps_pairs(block, spec_compile_variable_declaration(block, name, value).0),
{
    lemma_expression_keeps_pairs(block, value);
    let (first, slot) = spec_compile_expression(block, value);
    if slot is Ok && first.frame.total_slots() < usize::MAX {
        let offset = first.frame.stack_slots;
        let declared = BlockView { frame: first.frame.declare(name), ..first };
        let handle = InstructionView::Opcode {
            destination: declared.next_slot(),
            opcode: OpcodeView::StackVariable(offset),
        };
        lemma_push_keeps_pairs(declared, handle);
        lemma_push_keeps_pairs(
            declared.push(handle),
            InstructionView::Assign(AssignmentTarget::StackVariable(offset), slot->Ok_0),
        );
    }
}

/// Lowering a statement keeps the returns paired.
pub proof fn lemma_statement_keeps_pairs(block: BlockView, statement: StatementView)
    ensures
        keeps_pairs(block, spec_compile_statement(block, statement).0),
    decreases statement, 0nat, 0nat,
{
    match statement {
        StatementView::Expression(expression) => {
            lemma_expression_keeps_pairs(block, expression);
        },
        StatementView::FunctionDefinition(_) => {
            lemma_literal_keeps_pairs(block, LiteralView::Integer(0));
        },
        StatementView::VariableDeclaration(name, value) => {
            lemma_declaration_keeps_pairs(block, name, value);
        },
        StatementView::Return(value) => {
            lemma_return_keeps_pairs(block, value);
        },
        StatementView::Assignment(lhs, rhs) => {
            lemma_assignment_keeps_pairs(block, lhs, rhs);
        },
        StatementView::Condition(branches) => {
            let end_label = block.next_label("condition end"@);
            let made = block.with_label("condition end"@);
            lemma_branches_keep_pairs(made, branches, 0, end_label, seq![]);
            let (lowered, results) = spec_compile_branches(made, branches, 0, end_label, seq![]);
            match results {
                Ok(results) => {
                    lemma_push_keeps_pairs(lowered, InstructionView::Label(end_label));
                    let bound = lowered.set_label(end_label);
                    lemma_push_keeps_pairs(
                        bound,
                        InstructionView::Opcode {
                            destination: bound.next_slot(),
                            opcode: OpcodeView::PhiEnd(results),
                        },
                    );
                },
                Err(_) => {},
            }
        },
        StatementView::Loop(loop_statement) => {
            let start_label = block.next_label("loop start"@);
            let first = block.with_label("loop start"@);
            let test_label = first.next_label("loop test"@);
            let second = first.with_label("loop test"@);
            let jump = InstructionView::Opcode {
                destination: second.next_slot(),
                opcode: OpcodeView::Jump(JumpCondition::Unconditional, test_label),
            };
            lemma_push_keeps_pairs(second, jump);
            let jumped = second.push(jump);
            lemma_push_keeps_pairs(jumped, InstructionView::Label(start_label));
            let started = jumped.set_label(start_label);
            lemma_block_keeps_pairs(started, loop_statement.block, 0, None);
            let (lowered, body) = spec_compile_block(started, loop_statement.block, 0, None);
            if body is Ok {
                lemma_push_keeps_pairs(lowered, InstructionView::Label(test_label));
                lemma_predicate_keeps_pairs(
                    lowered.set_label(test_label),
                    loop_statement.predicate,
                    start_label,
                    None,
                );
            }
        },
    }
}

/// Lowering the statements of a block keeps the returns paired.
pub proof fn lemma_block_keeps_pairs(
    block: BlockView,
    statements: Seq<StatementView>,
    from: int,
    last: Option<Slot>,
)
    ensures
        keeps_pairs(block, spec_compile_block(block, statements, from, last).0),
    decreases statements, statements.len() - from, 0nat,
{
    if 0 <= from < statements.len() {
        lemma_statement_keeps_pairs(block, statements[from]);
        let (next, slot) = spec_compile_statement(block, statements[from]);
        if slot is Ok {
            lemma_block_keeps_pairs(next, statements, from + 1, Some(slot->Ok_0));
        }
    } else {
        match last {
            Some(_) => {},
            None => {
                lemma_literal_keeps_pairs(block, LiteralView::Integer(0));
            },
        }
    }
}

proof fn lemma_branches_keep_pairs(
    block: BlockView,
    branches: Seq<(Option<ExpressionView>, Seq<StatementView>)>,
    from: int,
    end_label: LabelView,
    results: Seq<Slot>,
)
    ensures
        keeps_pairs(block, spec_compile_branches(block, branches, from, end_label, results).0),
    decreases branches, branches.len() - from, 0nat,
{
    if 0 <= from < branches.len() {
        let is_last_branch = from + 1 == branches.len();
        let next_label = block.next_label("condition next"@);
        let entered = if is_last_branch {
            block
        } else {
            block.with_label("condition next"@)
        };
        let block_label = entered.next_label("condition block"@);
        let false_target = if is_last_branch {
            Some(end_label)
        } else {
            Some(next_label)
        };
        let (tested, test) = match branches[from].0 {
            Some(predicate) => {
                let made = entered.with_label("condition block"@);
                lemma_predicate_keeps_pairs(made, predicate, block_label, false_target);
                let (jumped, slot) = spec_compile_predicate(
                    made,
                    predicate,
                    block_label,
                    false_target,
                );
                match slot {
                    Err(error) => (jumped, Err::<Slot, super::error::CompileErrorView>(error)),
                    Ok(slot) => {
                        lemma_push_keeps_pairs(jumped, InstructionView::Label(block_label));
                        (jumped.set_label(block_label), Ok(slot))
                    },
                }
            },
            None => (entered, Ok(entered.next_slot())),
        };
        if test is Ok {
            lemma_block_keeps_pairs(tested, branches[from].1, 0, None);
            let (body, result) = spec_compile_block(tested, branches[from].1, 0, None);
            if result is Ok {
                let left = if is_last_branch {
                    body
                } else {
                    let jump = InstructionView::Opcode {
                        destination: body.next_slot(),
                        opcode: OpcodeView::Jump(JumpCondition::Unconditional, end_label),
                    };
                    lemma_push_keeps_pairs(body, jump);
                    lemma_push_keeps_pairs(body.push(jump), InstructionView::Label(next_label));
                    body.push(jump).set_label(next_label)
                };
                lemma_branches_keep_pairs(
                    left,
                    branches,
                    from + 1,
                    end_label,
                    results.push(result->Ok_0),
                );
            }
        }
    }
}

proof fn lemma_body_statements_keep_pairs(
    block: BlockView,
    statements: Seq<StatementView>,
    from: int,
    last: Option<Slot>,
)
    ensures
        keeps_pairs(block, spec_compile_body_statements(block, statements, from, last).0),
        match spec_compile_body_statements(block, statements, from, last).1 {
            Ok((_, true)) => leaves_function(
                spec_compile_body_statements(block, statements, from, last).0.instructions.last(),
            ),
            _ => true,
        },
    decreases statements.len() - from,
{
    if 0 <= from < statements.len() {
        lemma_statement_keeps_pairs(block, statements[from]);
        let (next, slot) = spec_compile_statement(block, statements[from]);
        if slot is Ok {
            if super::lowering::is_return(statements[from]) {
                lemma_return_keeps_pairs(block, statements[from]->Return_0);
            } else {
                lemma_body_statements_keep_pairs(next, statements, from + 1, Some(slot->Ok_0));
            }
        }
    }
}

/// Every lowered function ends with a return, and sets its return value
/// only right before it returns.
///
/// Where the lowering of a function's body succeeds, the last instruction
/// leaves the function, and each instruction that sets the return value is
/// followed by one that leaves the function.
pub proof fn lemma_returns_are_paired(frame: StackFrameView, statements: Seq<StatementView>)
    requires
        spec_compile_function_body(empty_block(frame), statements).1 is Ok,
    ensures
        ({
            let lowered = spec_compile_function_body(empty_block(frame), statements).0;
            &&& lowered.instructions.len() > 0
            &&& leaves_function(lowered.instructions.last())
            &&& well_paired(lowered.instructions)
        }),
{
    let empty = empty_block(frame);
    let after = spec_compile_function_body(empty, statements).0;
    lemma_body_statements_keep_pairs(empty, statements, 0, None);
    let (lowered, body) = spec_compile_body_statements(empty, statements, 0, None);
    assert(well_paired(empty.instructions));
    assert(well_paired(lowered.instructions));
    let (last, returned) = body->Ok_0;
    if returned {
        lemma_body_returned_value(empty, statements, 0, None);
        assert(after == lowered);
    } else {
        let valued = match last {
            Some(_) => lowered,
            None => spec_compile_literal(lowered, LiteralView::Integer(0)).0,
        };
        lemma_literal_keeps_pairs(lowered, LiteralView::Integer(0));
        assert(well_paired(valued.instructions));
        let value = match last {
            Some(slot) => slot,
            None => lowered.next_slot(),
        };
        lemma_push_return_keeps_pairs(valued, value);
        assert(after == valued.push_op(OpcodeView::SetReturnValue(value)).push_op(
            OpcodeView::Return,
        ));
    }
}

/// Where the statements of a body end with a `return`, something was
/// lowered, and the body has a value.
proof fn lemma_body_returned_value(
    block: BlockView,
    statements: Seq<StatementView>,
    from: int,
    last: Option<Slot>,
)
    requires
        spec_compile_body_statements(block, statements, from, last).1 matches Ok((_, true)),
    ensures
        spec_compile_body_statements(block, statements, from, last).0.instructions.len() > 0,
        spec_compile_body_statements(block, statements, from, last).1->Ok_0.0 is Some,
    decreases statements.len() - from,
{
    if 0 <= from < statements.len() {
        let (next, slot) = spec_compile_statement(block, statements[from]);
        if slot is Ok && !super::lowering::is_return(statements[from]) {
            lemma_body_returned_value(next, statements, from + 1, Some(slot->Ok_0));
        }
    }
}

/// The emitter takes the returns of every lowered function.
///
/// Where the lowering of a function's body succeeds, the emitter does not
/// fail because a return value is set without a return after it.
pub proof fn lemma_lowered_returns_are_taken(frame: StackFrameView, statements: Seq<StatementView>)
    requires
        spec_compile_function_body(empty_block(frame), statements).1 is Ok,
    ensures
        !crate::codegen::x86_64::laws::lacks_return(
            crate::codegen::x86_64::spec_codegen(
                spec_compile_function_body(empty_block(frame), statements).0,
            ),
        ),
{
    lemma_returns_are_paired(frame, statements);
    crate::codegen::x86_64::laws::lemma_paired_returns_are_taken(
        spec_compile_function_body(empty_block(frame), statements).0,
    );
}

} // verus!
