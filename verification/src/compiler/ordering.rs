//! What holds of the slots of every lowered function.

use vstd::prelude::*;
use super::error::CompileErrorView;
use super::laws::empty_block;
use super::lowering::{
    spec_assignment_target, spec_compile_arguments, spec_compile_assignment_statement,
    spec_compile_block, spec_compile_body_statements, spec_compile_branches,
    spec_compile_expression, spec_compile_function_body, spec_compile_identifier,
    spec_compile_literal, spec_compile_predicate, spec_compile_return_statement,
    spec_compile_statement, spec_compile_variable_declaration, spec_predicate_jumps,
};
use super::stack_frame::{StackFrameView, Symbol};
use crate::ir::block::BlockView;
use crate::ir::instruction::InstructionView;
use crate::ir::label::LabelView;
use crate::ir::opcode::OpcodeView;
use crate::ir::{AssignmentTarget, JumpCondition, Slot};
use crate::parser::syntax::{ExpressionView, LiteralView, StatementView};
use crate::parser::{ArithmeticOperator, BinaryOperator};

verus! {

/// Whether the slot is named by one of the first `count` instructions.
pub open spec fn earlier(slot: Slot, count: int) -> bool {
    slot.0 < count
}

/// Whether each of the slots is named by one of the first `count`
/// instructions.
pub open spec fn all_earlier(slots: Seq<Slot>, count: int) -> bool {
    forall|k: int| 0 <= k < slots.len() ==> earlier(#[trigger] slots[k], count)
}

/// Whether the instruction at an index reads only slots that earlier
/// instructions name, and names its own value after its index.
pub open spec fn in_order(instructions: Seq<InstructionView>, index: int) -> bool {
    &&& all_earlier(instructions[index].inputs(), index)
    &&& match instructions[index] {
        InstructionView::Opcode { destination, .. } => destination.0 == index,
        _ => true,
    }
}

/// Whether every instruction of the block is in order.
pub open spec fn ordered(block: BlockView) -> bool {
    forall|i: int| 0 <= i < block.instructions.len() ==> in_order(block.instructions, i)
}

/// What the lemmas below show of each piece of lowering: it adds
/// instructions, and, where the block is no longer than a 64-bit counter
/// can tell and was in order, the block stays in order, and the value of
/// the piece is named by one of the instructions.
pub open spec fn order_law(
    before: BlockView,
    after: BlockView,
    result: Result<Slot, CompileErrorView>,
) -> bool {
    &&& before.instructions.len() <= after.instructions.len()
    &&& after.instructions.len() <= u64::MAX && ordered(before) ==> ordered(after) && (result
        matches Ok(slot) ==> earlier(slot, after.instructions.len() as int))
}

/// An operation that reads earlier slots keeps the block in order.
proof fn lemma_push_op_ordered(block: BlockView, opcode: OpcodeView)
    requires
        ordered(block),
        block.instructions.len() < u64::MAX,
        all_earlier(opcode.inputs(), block.instructions.len() as int),
    ensures
        ordered(block.push_op(opcode)),
        earlier(block.next_slot(), block.push_op(opcode).instructions.len() as int),
{
    let after = block.push_op(opcode);
    assert forall|i: int| 0 <= i < after.instructions.len() implies in_order(
        after.instructions,
        i,
    ) by {
        if i < block.instructions.len() {
            assert(in_order(block.instructions, i));
            assert(after.instructions[i] == block.instructions[i]);
        }
    }
}

/// A label keeps the block in order.
proof fn lemma_set_label_ordered(block: BlockView, label: LabelView)
    requires
        ordered(block),
    ensures
        ordered(block.set_label(label)),
{
    let after = block.set_label(label);
    assert forall|i: int| 0 <= i < after.instructions.len() implies in_order(
        after.instructions,
        i,
    ) by {
        if i < block.instructions.len() {
            assert(in_order(block.instructions, i));
            assert(after.instructions[i] == block.instructions[i]);
        }
    }
}

/// An assignment from an earlier slot keeps the block in order.
proof fn lemma_assign_ordered(block: BlockView, target: AssignmentTarget, source: Slot)
    requires
        ordered(block),
        earlier(source, block.instructions.len() as int),
    ensures
        ordered(block.push(InstructionView::Assign(target, source))),
{
    let after = block.push(InstructionView::Assign(target, source));
    assert forall|i: int| 0 <= i < after.instructions.len() implies in_order(
        after.instructions,
        i,
    ) by {
        if i < block.instructions.len() {
            assert(in_order(block.instructions, i));
            assert(after.instructions[i] == block.instructions[i]);
        }
    }
}

proof fn lemma_literal_order(block: BlockView, literal: LiteralView)
    ensures
        order_law(
            block,
            spec_compile_literal(block, literal).0,
            spec_compile_literal(block, literal).1,
        ),
{
    let after = spec_compile_literal(block, literal).0;
    if after.instructions.len() <= u64::MAX && ordered(block) {
        lemma_push_op_ordered(block, OpcodeView::Literal(super::lowering::literal_value(literal)));
    }
}

proof fn lemma_identifier_order(block: BlockView, name: Seq<char>)
    ensures
        order_law(
            block,
            spec_compile_identifier(block, name).0,
            spec_compile_identifier(block, name).1,
        ),
{
    let after = spec_compile_identifier(block, name).0;
    if after.instructions.len() <= u64::MAX && ordered(block) {
        match block.frame.resolve(name) {
            Some(Symbol::Argument(index)) => {
                lemma_push_op_ordered(block, OpcodeView::FunctionArgument(index));
            },
            Some(Symbol::StackVariable(offset)) => {
                lemma_push_op_ordered(block, OpcodeView::StackVariable(offset));
            },
            _ => {},
        }
    }
}

/// Lowering an expression keeps the block in order.
pub proof fn lemma_expression_order(block: BlockView, expression: ExpressionView)
    ensures
        order_law(
            block,
            spec_compile_expression(block, expression).0,
            spec_compile_expression(block, expression).1,
        ),
    decreases expression, 0nat, 0nat,
{
    let (after, result) = spec_compile_expression(block, expression);
    match expression {
        ExpressionView::Identifier(name) => {
            lemma_identifier_order(block, name);
        },
        ExpressionView::FunctionCall(name, arguments) => {
            lemma_arguments_order(block, arguments, 0, seq![]);
            let (lowered, slots) = spec_compile_arguments(block, arguments, 0, seq![]);
            if after.instructions.len() <= u64::MAX && ordered(block) {
                match slots {
                    Ok(slots) => {
                        match lowered.frame.resolve(name) {
                            Some(Symbol::Function(address, arity)) => {
                                if slots.len() == arity {
                                    lemma_push_op_ordered(
                                        lowered,
                                        OpcodeView::CallFunction(address, slots),
                                    );
                                }
                            },
                            _ => {},
                        }
                    },
                    Err(_) => {},
                }
            }
        },
        ExpressionView::Literal(literal) => {
            lemma_literal_order(block, literal);
        },
        ExpressionView::BinaryExpression(lhs, operator, rhs) => match operator {
            BinaryOperator::ComparisonOperator(_) => {},
            BinaryOperator::ArithmeticOperator(ArithmeticOperator::Divide) => {},
            BinaryOperator::ArithmeticOperator(_) => {
                lemma_expression_order(block, *lhs);
                let (first, lhs_slot) = spec_compile_expression(block, *lhs);
                if lhs_slot is Ok {
                    lemma_expression_order(first, *rhs);
                    let (second, rhs_slot) = spec_compile_expression(first, *rhs);
                    if rhs_slot is Ok && after.instructions.len() <= u64::MAX && ordered(block) {
                        let opcode = OpcodeView::BinaryOperator(
                            lhs_slot->Ok_0,
                            operator,
                            rhs_slot->Ok_0,
                        );
                        assert(opcode.inputs()[0] == lhs_slot->Ok_0);
                        assert(opcode.inputs()[1] == rhs_slot->Ok_0);
                        lemma_push_op_ordered(second, opcode);
                    }
                }
            },
        },
    }
}

/// Lowering the arguments of a call keeps the block in order, and each of
/// their slots is named by one of the instructions.
proof fn lemma_arguments_order(
    block: BlockView,
    arguments: Seq<ExpressionView>,
    from: int,
    slots: Seq<Slot>,
)
    ensures
        block.instructions.len() <= spec_compile_arguments(
            block,
            arguments,
            from,
            slots,
        ).0.instructions.len(),
        spec_compile_arguments(block, arguments, from, slots).0.instructions.len() <= u64::MAX
            && ordered(block) && all_earlier(slots, block.instructions.len() as int) ==> ordered(
            spec_compile_arguments(block, arguments, from, slots).0,
        ) && (spec_compile_arguments(block, arguments, from, slots).1 matches Ok(all)
            ==> all_earlier(
            all,
            spec_compile_arguments(block, arguments, from, slots).0.instructions.len() as int,
        )),
    decreases arguments, arguments.len() - from, 0nat,
{
    let (after, result) = spec_compile_arguments(block, arguments, from, slots);
    if 0 <= from < arguments.len() {
        lemma_expression_order(block, arguments[from]);
        let (next, slot) = spec_compile_expression(block, arguments[from]);
        if slot is Ok {
            lemma_arguments_order(next, arguments, from + 1, slots.push(slot->Ok_0));
            if after.instructions.len() <= u64::MAX && ordered(block) && all_earlier(
                slots,
                block.instructions.len() as int,
            ) {
                assert forall|k: int| 0 <= k < slots.push(slot->Ok_0).len() implies earlier(
                    #[trigger] slots.push(slot->Ok_0)[k],
                    next.instructions.len() as int,
                ) by {
                    if k < slots.len() {
                        assert(earlier(slots[k], block.instructions.len() as int));
                    }
                }
            }
        }
    }
}

proof fn lemma_predicate_jumps_order(
    block: BlockView,
    condition: JumpCondition,
    true_target: LabelView,
    false_target: Option<LabelView>,
)
    requires
        all_earlier(condition.inputs(), block.instructions.len() as int),
    ensures
        order_law(
            block,
            spec_predicate_jumps(block, condition, true_target, false_target).0,
            spec_predicate_jumps(block, condition, true_target, false_target).1,
        ),
{
    let after = spec_predicate_jumps(block, condition, true_target, false_target).0;
    if after.instructions.len() <= u64::MAX && ordered(block) {
        lemma_push_op_ordered(block, OpcodeView::Jump(condition, true_target));
        let jumped = block.push_op(OpcodeView::Jump(condition, true_target));
        match false_target {
            Some(false_target) => {
                lemma_push_op_ordered(
                    jumped,
                    OpcodeView::Jump(JumpCondition::Unconditional, false_target),
                );
            },
            None => {},
        }
    }
}

proof fn lemma_predicate_order(
    block: BlockView,
    predicate: ExpressionView,
    true_target: LabelView,
    false_target: Option<LabelView>,
)
    ensures
        order_law(
            block,
            spec_compile_predicate(block, predicate, true_target, false_target).0,
            spec_compile_predicate(block, predicate, true_target, false_target).1,
        ),
{
    let after = spec_compile_predicate(block, predicate, true_target, false_target).0;
    match predicate {
        ExpressionView::BinaryExpression(lhs, BinaryOperator::ComparisonOperator(operator), rhs) => {
            lemma_expression_order(block, *lhs);
            let (first, lhs_slot) = spec_compile_expression(block, *lhs);
            if lhs_slot is Ok {
                lemma_expression_order(first, *rhs);
                let (second, rhs_slot) = spec_compile_expression(first, *rhs);
                if rhs_slot is Ok {
                    let condition = super::lowering::comparison_condition(
                        operator,
                        lhs_slot->Ok_0,
                        rhs_slot->Ok_0,
                    );
                    if after.instructions.len() <= u64::MAX && ordered(block) {
                        assert(condition.inputs() =~= seq![lhs_slot->Ok_0, rhs_slot->Ok_0]);
                        assert(all_earlier(condition.inputs(), second.instructions.len() as int));
                        lemma_predicate_jumps_order(second, condition, true_target, false_target);
                    } else {
                        lemma_predicate_jumps_lengths(second, condition, true_target, false_target);
                    }
                }
            }
        },
        _ => {
            lemma_expression_order(block, predicate);
            let (first, slot) = spec_compile_expression(block, predicate);
            if slot is Ok {
                let condition = JumpCondition::NotZero(slot->Ok_0);
                if after.instructions.len() <= u64::MAX && ordered(block) {
                    assert(condition.inputs() =~= seq![slot->Ok_0]);
                    lemma_predicate_jumps_order(first, condition, true_target, false_target);
                } else {
                    lemma_predicate_jumps_lengths(first, condition, true_target, false_target);
                }
            }
        },
    }
}

proof fn lemma_predicate_jumps_lengths(
    block: BlockView,
    condition: JumpCondition,
    true_target: LabelView,
    false_target: Option<LabelView>,
)
    ensures
        block.instructions.len() <= spec_predicate_jumps(
            block,
            condition,
            true_target,
            false_target,
        ).0.instructions.len(),
{
}

proof fn lemma_return_order(block: BlockView, result: ExpressionView)
    ensures
        order_law(
            block,
            spec_compile_return_statement(block, result).0,
            spec_compile_return_statement(block, result).1,
        ),
{
    let after = spec_compile_return_statement(block, result).0;
    lemma_expression_order(block, result);
    let (first, slot) = spec_compile_expression(block, result);
    if slot is Ok && after.instructions.len() <= u64::MAX && ordered(block) {
        let set = OpcodeView::SetReturnValue(slot->Ok_0);
        assert(set.inputs() =~= seq![slot->Ok_0]);
        lemma_push_op_ordered(first, set);
        lemma_push_op_ordered(first.push_op(set), OpcodeView::Return);
    }
}

proof fn lemma_assignment_order(block: BlockView, lhs: Seq<char>, rhs: ExpressionView)
    ensures
        order_law(
            block,
            spec_compile_assignment_statement(block, lhs, rhs).0,
            spec_compile_assignment_statement(block, lhs, rhs).1,
        ),
{
    let after = spec_compile_assignment_statement(block, lhs, rhs).0;
    lemma_expression_order(block, rhs);
    let (first, slot) = spec_compile_expression(block, rhs);
    if slot is Ok && after.instructions.len() <= u64::MAX && ordered(block) {
        match spec_assignment_target(first.frame.resolve(lhs), lhs) {
            Ok(target) => {
                lemma_assign_ordered(first, target, slot->Ok_0);
            },
            Err(_) => {},
        }
    }
}

proof fn lemma_declaration_order(block: BlockView, name: Seq<char>, value: ExpressionView)
    ensures
        order_law(
            block,
            spec_compile_variable_declaration(block, name, value).0,
            spec_compile_variable_declaration(block, name, value).1,
        ),
{
    let after = spec_compile_variable_declaration(block, name, value).0;
    lemma_expression_order(block, value);
    let (first, slot) = spec_compile_expression(block, value);
    if slot is Ok && first.frame.total_slots() < usize::MAX && after.instructions.len() <= u64::MAX
        && ordered(block) {
        let offset = first.frame.stack_slots;
        let declared = BlockView { frame: first.frame.declare(name), ..first };
        assert(ordered(declared));
        lemma_push_op_ordered(declared, OpcodeView::StackVariable(offset));
        lemma_assign_ordered(
            declared.push_op(OpcodeView::StackVariable(offset)),
            AssignmentTarget::StackVariable(offset),
            slot->Ok_0,
        );
    }
}

/// Lowering a statement keeps the block in order.
pub proof fn lemma_statement_order(block: BlockView, statement: StatementView)
    ensures
        order_law(
            block,
            spec_compile_statement(block, statement).0,
            spec_compile_statement(block, statement).1,
        ),
    decreases statement, 0nat, 0nat,
{
    let (after, result) = spec_compile_statement(block, statement);
    match statement {
        StatementView::Expression(expression) => {
            lemma_expression_order(block, expression);
        },
        StatementView::FunctionDefinition(_) => {
            lemma_literal_order(block, LiteralView::Integer(0));
        },
        StatementView::VariableDeclaration(name, value) => {
            lemma_declaration_order(block, name, value);
        },
        StatementView::Return(value) => {
            lemma_return_order(block, value);
        },
        StatementView::Assignment(lhs, rhs) => {
            lemma_assignment_order(block, lhs, rhs);
        },
        StatementView::Condition(branches) => {
            let end_label = block.next_label("condition end"@);
            let made = block.with_label("condition end"@);
            lemma_branches_order(made, branches, 0, end_label, seq![]);
            let (lowered, results) = spec_compile_branches(made, branches, 0, end_label, seq![]);
            if after.instructions.len() <= u64::MAX && ordered(block) {
                assert(ordered(made));
                match results {
                    Ok(results) => {
                        lemma_set_label_ordered(lowered, end_label);
                        let bound = lowered.set_label(end_label);
                        assert forall|k: int| 0 <= k < results.len() implies earlier(
                            #[trigger] results[k],
                            bound.instructions.len() as int,
                        ) by {
                            assert(earlier(results[k], lowered.instructions.len() as int));
                        }
                        lemma_push_op_ordered(bound, OpcodeView::PhiEnd(results));
                    },
                    Err(_) => {},
                }
            }
        },
        StatementView::Loop(loop_statement) => {
            let start_label = block.next_label("loop start"@);
            let first = block.with_label("loop start"@);
            let test_label = first.next_label("loop test"@);
            let second = first.with_label("loop test"@);
            let jump = OpcodeView::Jump(JumpCondition::Unconditional, test_label);
            let jumped = second.push_op(jump);
            let started = jumped.set_label(start_label);
            lemma_block_order(started, loop_statement.block, 0, None);
            let (lowered, body) = spec_compile_block(started, loop_statement.block, 0, None);
            if body is Ok {
                lemma_predicate_order(
                    lowered.set_label(test_label),
                    loop_statement.predicate,
                    start_label,
                    None,
                );
            }
            if after.instructions.len() <= u64::MAX && ordered(block) {
                assert(ordered(second));
                lemma_push_op_ordered(second, jump);
                lemma_set_label_ordered(jumped, start_label);
                if body is Ok {
                    lemma_set_label_ordered(lowered, test_label);
                }
            }
        },
    }
}

/// Lowering the statements of a block keeps the block in order.
pub proof fn lemma_block_order(
    block: BlockView,
    statements: Seq<StatementView>,
    from: int,
    last: Option<Slot>,
)
    ensures
        block.instructions.len() <= spec_compile_block(
            block,
            statements,
            from,
            last,
        ).0.instructions.len(),
        spec_compile_block(block, statements, from, last).0.instructions.len() <= u64::MAX
            && ordered(block) && (last matches Some(slot) ==> earlier(
            slot,
            block.instructions.len() as int,
        )) ==> ordered(spec_compile_block(block, statements, from, last).0) && (
        spec_compile_block(block, statements, from, last).1 matches Ok(slot) ==> earlier(
            slot,
            spec_compile_block(block, statements, from, last).0.instructions.len() as int,
        )),
    decreases statements, statements.len() - from, 0nat,
{
    if 0 <= from < statements.len() {
        lemma_statement_order(block, statements[from]);
        let (next, slot) = spec_compile_statement(block, statements[from]);
        if slot is Ok {
            lemma_block_order(next, statements, from + 1, Some(slot->Ok_0));
        }
    } else {
        match last {
            Some(_) => {},
            None => {
                lemma_literal_order(block, LiteralView::Integer(0));
            },
        }
    }
}

proof fn lemma_branches_order(
    block: BlockView,
    branches: Seq<(Option<ExpressionView>, Seq<StatementView>)>,
    from: int,
    end_label: LabelView,
    results: Seq<Slot>,
)
    ensures
        block.instructions.len() <= spec_compile_branches(
            block,
            branches,
            from,
            end_label,
            results,
        ).0.instructions.len(),
        spec_compile_branches(block, branches, from, end_label, results).0.instructions.len()
            <= u64::MAX && ordered(block) && all_earlier(results, block.instructions.len() as int)
            ==> ordered(spec_compile_branches(block, branches, from, end_label, results).0) && (
        spec_compile_branches(block, branches, from, end_label, results).1 matches Ok(all)
            ==> all_earlier(
            all,
            spec_compile_branches(
                block,
                branches,
                from,
                end_label,
                results,
            ).0.instructions.len() as int,
        )),
    decreases branches, branches.len() - from, 0nat,
{
    let (after, lowered) = spec_compile_branches(block, branches, from, end_label, results);
    if 0 <= from < branches.len() {
        let is_last_branch = from + 1 == branches.len();
        let next_label = block.next_label("condition next"@);
        let entered = if is_last_branch {
            block
        } else {
            block.with_label("condition next"@)
        };
        let block_label = entered.next_label("condition block"@);
        let false_target = if is_last_branch {
            Some(end_label)
        } else {
            Some(next_label)
        };
        let made = entered.with_label("condition block"@);
        let (tested, test) = match branches[from].0 {
            Some(predicate) => {
                lemma_predicate_order(made, predicate, block_label, false_target);
                let (jumped, slot) = spec_compile_predicate(
                    made,
                    predicate,
                    block_label,
                    false_target,
                );
                match slot {
                    Err(error) => (jumped, Err::<Slot, CompileErrorView>(error)),
                    Ok(slot) => (jumped.set_label(block_label), Ok(slot)),
                }
            },
            None => (entered, Ok(entered.next_slot())),
        };
        let (body, result) = spec_compile_block(tested, branches[from].1, 0, None);
        let jump = OpcodeView::Jump(JumpCondition::Unconditional, end_label);
        let left = if is_last_branch {
            body
        } else {
            body.push_op(jump).set_label(next_label)
        };
        if test is Ok {
            lemma_block_order(tested, branches[from].1, 0, None);
            if result is Ok {
                lemma_branches_order(left, branches, from + 1, end_label, results.push(result->Ok_0));
            }
        }
        if after.instructions.len() <= u64::MAX && ordered(block) && all_earlier(
            results,
            block.instructions.len() as int,
        ) {
            assert(ordered(entered));
            assert(ordered(made));
            match branches[from].0 {
                Some(predicate) => {
                    let (jumped, slot) = spec_compile_predicate(
                        made,
                        predicate,
                        block_label,
                        false_target,
                    );
                    if slot is Ok {
                        lemma_set_label_ordered(jumped, block_label);
                    }
                },
                None => {},
            }
            if test is Ok && result is Ok {
                if !is_last_branch {
                    lemma_push_op_ordered(body, jump);
                    lemma_set_label_ordered(body.push_op(jump), next_label);
                }
                assert forall|k: int| 0 <= k < results.push(result->Ok_0).len() implies earlier(
                    #[trigger] results.push(result->Ok_0)[k],
                    left.instructions.len() as int,
                ) by {
                    if k < results.len() {
                        assert(earlier(results[k], block.instructions.len() as int));
                    }
                }
            }
        }
    }
}

proof fn lemma_body_statements_order(
    block: BlockView,
    statements: Seq<StatementView>,
    from: int,
    last: Option<Slot>,
)
    ensures
        block.instructions.len() <= spec_compile_body_statements(
            block,
            statements,
            from,
            last,
        ).0.instructions.len(),
        spec_compile_body_statements(block, statements, from, last).0.instructions.len()
            <= u64::MAX && ordered(block) && (last matches Some(slot) ==> earlier(
            slot,
            block.instructions.len() as int,
        )) ==> ordered(spec_compile_body_statements(block, statements, from, last).0) && (
        spec_compile_body_statements(block, statements, from, last).1 matches Ok((Some(slot), _))
            ==> earlier(
            slot,
            spec_compile_body_statements(
                block,
                statements,
                from,
                last,
            ).0.instructions.len() as int,
        )),
    decreases statements.len() - from,
{
    if 0 <= from < statements.len() {
        lemma_statement_order(block, statements[from]);
        let (next, slot) = spec_compile_statement(block, statements[from]);
        if slot is Ok && !super::lowering::is_return(statements[from]) {
            lemma_body_statements_order(next, statements, from + 1, Some(slot->Ok_0));
        }
    }
}

/// Every slot that an instruction reads is named by an earlier instruction.
///
/// Where the lowering of a function's body succeeds, each instruction reads
/// only slots with numbers below its own index, and an operation at the
/// index `n` names its value `Slot(n)`: no slot is named twice, and none is
/// read before the instruction that names it.  The number of instructions is
/// taken to be one that a 64-bit counter can hold, as it is of every block
/// in memory.
pub proof fn lemma_slots_are_named_earlier(frame: StackFrameView, statements: Seq<StatementView>)
    requires
        spec_compile_function_body(empty_block(frame), statements).1 is Ok,
        spec_compile_function_body(empty_block(frame), statements).0.instructions.len()
            <= u64::MAX,
    ensures
        ordered(spec_compile_function_body(empty_block(frame), statements).0),
{
    let empty = empty_block(frame);
    let after = spec_compile_function_body(empty, statements).0;
    lemma_body_statements_order(empty, statements, 0, None);
    let (lowered, body) = spec_compile_body_statements(empty, statements, 0, None);
    assert(ordered(empty));
    let (last, returned) = body->Ok_0;
    let valued = match last {
        Some(_) => lowered,
        None => spec_compile_literal(lowered, LiteralView::Integer(0)).0,
    };
    let value = match last {
        Some(slot) => slot,
        None => lowered.next_slot(),
    };
    lemma_literal_order(lowered, LiteralView::Integer(0));
    if !returned {
        let set = OpcodeView::SetReturnValue(value);
        assert(set.inputs() =~= seq![value]);
        assert(after == valued.push_op(set).push_op(OpcodeView::Return));
        assert(ordered(valued));
        lemma_push_op_ordered(valued, set);
        lemma_push_op_ordered(valued.push_op(set), OpcodeView::Return);
    }
}

} // verus!
