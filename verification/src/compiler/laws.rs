//! What holds of the instructions of every lowered function.

use vstd::prelude::*;
use super::error::CompileErrorView;
use super::lowering::{
    spec_assignment_target, spec_call, spec_compile_arguments, spec_compile_assignment_statement,
    spec_compile_block, spec_compile_body_statements, spec_compile_branches,
    spec_compile_expression, spec_compile_function_body, spec_compile_identifier,
    spec_compile_literal, spec_compile_predicate, spec_compile_return_statement,
    spec_compile_statement, spec_compile_variable_declaration, spec_predicate_jumps,
};
use super::stack_frame::StackFrameView;
use crate::ir::block::BlockView;
use crate::ir::instruction::InstructionView;
use crate::ir::label::LabelView;
use crate::ir::opcode::OpcodeView;
use crate::ir::{JumpCondition, Slot};
use crate::parser::syntax::{ExpressionView, LiteralView, StatementView};
use crate::parser::{ArithmeticOperator, BinaryOperator};

verus! {

/// The number of instructions that bind the label.
pub open spec fn bound_count(instructions: Seq<InstructionView>, label: LabelView) -> nat
    decreases instructions.len(),
{
    if instructions.len() == 0 {
        0
    } else {
        bound_count(instructions.drop_last(), label) + if instructions.last()
            == InstructionView::Label(label) {
            1nat
        } else {
            0nat
        }
    }
}

/// The label that an instruction jumps to, if it is a jump.
pub open spec fn jump_target(instruction: InstructionView) -> Option<LabelView> {
    match instruction {
        InstructionView::Opcode { opcode: OpcodeView::Jump(_, label), .. } => Some(label),
        _ => None,
    }
}

/// Whether every jump of the block goes to a label that was made for the
/// block.
pub open spec fn jumps_to_own_labels(block: BlockView) -> bool {
    forall|i: int|
        0 <= i < block.instructions.len() ==> match jump_target(#[trigger] block.instructions[i]) {
            Some(label) => block.has_label(label),
            None => true,
        }
}

/// Whether the block binds no label but those that were made for it.
pub open spec fn binds_own_labels(block: BlockView) -> bool {
    forall|label: LabelView|
        !block.has_label(label) ==> #[trigger] bound_count(block.instructions, label) == 0
}

/// The invariant of lowering, as far as labels go.
pub open spec fn labels_sound(block: BlockView) -> bool {
    &&& block.labels.len() <= u64::MAX
    &&& jumps_to_own_labels(block)
    &&& binds_own_labels(block)
}

/// Whether the labels of `before` are bound in `after` as often as in
/// `before`.
pub open spec fn keeps_bindings(before: BlockView, after: BlockView) -> bool {
    forall|label: LabelView|
        before.has_label(label) ==> #[trigger] bound_count(after.instructions, label)
            == bound_count(before.instructions, label)
}

/// Whether each label that was made between `before` and `after` is bound
/// exactly once in `after`.
pub open spec fn binds_new_labels_once(before: BlockView, after: BlockView) -> bool {
    forall|label: LabelView|
        after.has_label(label) && !before.has_label(label) ==> #[trigger] bound_count(
            after.instructions,
            label,
        ) == 1
}

/// What a piece of lowering does to the labels: it makes labels, leaves the
/// bindings of the labels that were there alone, and, where it succeeds,
/// binds each label that it makes exactly once.
pub open spec fn label_effect(before: BlockView, after: BlockView, ok: bool) -> bool {
    &&& before.labels.is_prefix_of(after.labels)
    &&& keeps_bindings(before, after)
    &&& ok ==> binds_new_labels_once(before, after)
}

/// What the lemmas below show of each piece of lowering.
pub open spec fn label_law(before: BlockView, after: BlockView, ok: bool) -> bool {
    &&& before.labels.len() <= after.labels.len()
    &&& after.labels.len() <= u64::MAX && labels_sound(before) ==> labels_sound(after)
        && label_effect(before, after, ok)
}

/// Whether a piece of lowering left the labels and their bindings alone.
pub open spec fn label_free(before: BlockView, after: BlockView) -> bool {
    &&& after.labels == before.labels
    &&& forall|label: LabelView| #[trigger]
        bound_count(after.instructions, label) == bound_count(before.instructions, label)
    &&& jumps_to_own_labels(before) ==> jumps_to_own_labels(after)
}

pub proof fn lemma_bound_count_push(
    instructions: Seq<InstructionView>,
    instruction: InstructionView,
    label: LabelView,
)
    ensures
        bound_count(instructions.push(instruction), label) == bound_count(instructions, label)
            + if instruction == InstructionView::Label(label) {
            1nat
        } else {
            0nat
        },
{
    assert(instructions.push(instruction).drop_last() =~= instructions);
}

/// An instruction that is neither a label nor a jump leaves the labels
/// alone.
pub proof fn lemma_push_plain(block: BlockView, instruction: InstructionView)
    requires
        !(instruction is Label),
        jump_target(instruction) is None,
    ensures
        label_free(block, block.push(instruction)),
{
    let after = block.push(instruction);
    assert forall|label: LabelView| #[trigger]
        bound_count(after.instructions, label) == bound_count(block.instructions, label) by {
        lemma_bound_count_push(block.instructions, instruction, label);
    }
}

/// A jump to one of the block's labels leaves the labels alone.
pub proof fn lemma_push_jump(block: BlockView, condition: JumpCondition, label: LabelView)
    requires
        block.has_label(label),
    ensures
        label_free(block, block.push_op(OpcodeView::Jump(condition, label))),
{
    let instruction = InstructionView::Opcode {
        destination: block.next_slot(),
        opcode: OpcodeView::Jump(condition, label),
    };
    let after = block.push(instruction);
    assert forall|other: LabelView| #[trigger]
        bound_count(after.instructions, other) == bound_count(block.instructions, other) by {
        lemma_bound_count_push(block.instructions, instruction, other);
    }
}

/// Leaving the labels alone twice is leaving them alone.
pub proof fn lemma_label_free_trans(first: BlockView, second: BlockView, third: BlockView)
    requires
        label_free(first, second),
        label_free(second, third),
    ensures
        label_free(first, third),
{
    assert forall|label: LabelView| #[trigger]
        bound_count(third.instructions, label) == bound_count(first.instructions, label) by {
        assert(bound_count(second.instructions, label) == bound_count(first.instructions, label));
    }
}

/// What leaves the labels alone obeys the law of the labels.
pub proof fn lemma_label_free_law(before: BlockView, after: BlockView, ok: bool)
    requires
        label_free(before, after),
    ensures
        label_law(before, after, ok),
{
    if labels_sound(before) {
        assert forall|label: LabelView| !after.has_label(label) implies #[trigger] bound_count(
            after.instructions,
            label,
        ) == 0 by {
            assert(bound_count(before.instructions, label) == 0);
        }
    }
}

/// Lowering a literal leaves the labels alone.
proof fn lemma_literal_label_free(block: BlockView, literal: LiteralView)
    ensures
        label_free(block, spec_compile_literal(block, literal).0),
{
    lemma_push_plain(
        block,
        InstructionView::Opcode {
            destination: block.next_slot(),
            opcode: OpcodeView::Literal(super::lowering::literal_value(literal)),
        },
    );
}

/// Lowering an identifier leaves the labels alone.
proof fn lemma_identifier_label_free(block: BlockView, name: Seq<char>)
    ensures
        label_free(block, spec_compile_identifier(block, name).0),
{
    match block.frame.resolve(name) {
        Some(super::stack_frame::Symbol::Argument(index)) => {
            lemma_push_plain(
                block,
                InstructionView::Opcode {
                    destination: block.next_slot(),
                    opcode: OpcodeView::FunctionArgument(index),
                },
            );
        },
        Some(super::stack_frame::Symbol::StackVariable(offset)) => {
            lemma_push_plain(
                block,
                InstructionView::Opcode {
                    destination: block.next_slot(),
                    opcode: OpcodeView::StackVariable(offset),
                },
            );
        },
        _ => {},
    }
}

/// Lowering an expression leaves the labels alone.
pub proof fn lemma_expression_label_free(block: BlockView, expression: ExpressionView)
    ensures
        label_free(block, spec_compile_expression(block, expression).0),
    decreases expression, 0nat, 0nat,
{
    match expression {
        ExpressionView::Identifier(name) => {
            lemma_identifier_label_free(block, name);
        },
        ExpressionView::FunctionCall(name, arguments) => {
            lemma_arguments_label_free(block, arguments, 0, seq![]);
            let (after, slots) = spec_compile_arguments(block, arguments, 0, seq![]);
            match slots {
                Ok(slots) => {
                    match after.frame.resolve(name) {
                        Some(super::stack_frame::Symbol::Function(address, arity)) => {
                            if slots.len() == arity {
                                lemma_push_plain(
                                    after,
                                    InstructionView::Opcode {
                                        destination: after.next_slot(),
                                        opcode: OpcodeView::CallFunction(address, slots),
                                    },
                                );
                                lemma_label_free_trans(block, after, spec_call(after, name, slots).0);
                            }
                        },
                        _ => {},
                    }
                },
                Err(_) => {},
            }
        },
        ExpressionView::Literal(literal) => {
            lemma_literal_label_free(block, literal);
        },
        ExpressionView::BinaryExpression(lhs, operator, rhs) => match operator {
            BinaryOperator::ComparisonOperator(_) => {},
            BinaryOperator::ArithmeticOperator(ArithmeticOperator::Divide) => {},
            BinaryOperator::ArithmeticOperator(_) => {
                lemma_expression_label_free(block, *lhs);
                let (first, lhs_slot) = spec_compile_expression(block, *lhs);
                if lhs_slot is Ok {
                    lemma_expression_label_free(first, *rhs);
                    let (second, rhs_slot) = spec_compile_expression(first, *rhs);
                    lemma_label_free_trans(block, first, second);
                    if rhs_slot is Ok {
                        lemma_push_plain(
                            second,
                            InstructionView::Opcode {
                                destination: second.next_slot(),
                                opcode: OpcodeView::BinaryOperator(
                                    lhs_slot->Ok_0,
                                    operator,
                                    rhs_slot->Ok_0,
                                ),
                            },
                        );
                        lemma_label_free_trans(
                            block,
                            second,
                            spec_compile_expression(block, expression).0,
                        );
                    }
                }
            },
        },
    }
}

/// Lowering the arguments of a call leaves the labels alone.
pub proof fn lemma_arguments_label_free(
    block: BlockView,
    arguments: Seq<ExpressionView>,
    from: int,
    slots: Seq<Slot>,
)
    ensures
        label_free(block, spec_compile_arguments(block, arguments, from, slots).0),
    decreases arguments, arguments.len() - from, 0nat,
{
    if 0 <= from < arguments.len() {
        lemma_expression_label_free(block, arguments[from]);
        let (next, slot) = spec_compile_expression(block, arguments[from]);
        if slot is Ok {
            lemma_arguments_label_free(next, arguments, from + 1, slots.push(slot->Ok_0));
            lemma_label_free_trans(
                block,
                next,
                spec_compile_arguments(next, arguments, from + 1, slots.push(slot->Ok_0)).0,
            );
        }
    }
}

/// The jumps of a predicate leave the labels alone, where their targets are
/// labels of the block.
proof fn lemma_predicate_jumps_label_free(
    block: BlockView,
    condition: JumpCondition,
    true_target: LabelView,
    false_target: Option<LabelView>,
)
    requires
        block.has_label(true_target),
        false_target is Some ==> block.has_label(false_target->0),
    ensures
        label_free(
            block,
            spec_predicate_jumps(block, condition, true_target, false_target).0,
        ),
{
    lemma_push_jump(block, condition, true_target);
    let jumped = block.push_op(OpcodeView::Jump(condition, true_target));
    match false_target {
        Some(false_target) => {
            lemma_push_jump(jumped, JumpCondition::Unconditional, false_target);
            lemma_label_free_trans(
                block,
                jumped,
                jumped.push_op(OpcodeView::Jump(JumpCondition::Unconditional, false_target)),
            );
        },
        None => {},
    }
}

/// Lowering a predicate leaves the labels alone, where its targets are
/// labels of the block.
pub proof fn lemma_predicate_label_free(
    block: BlockView,
    predicate: ExpressionView,
    true_target: LabelView,
    false_target: Option<LabelView>,
)
    requires
        block.has_label(true_target),
        false_target is Some ==> block.has_label(false_target->0),
    ensures
        label_free(
            block,
            spec_compile_predicate(block, predicate, true_target, false_target).0,
        ),
{
    match predicate {
        ExpressionView::BinaryExpression(lhs, BinaryOperator::ComparisonOperator(operator), rhs) => {
            lemma_expression_label_free(block, *lhs);
            let (first, lhs_slot) = spec_compile_expression(block, *lhs);
            if lhs_slot is Ok {
                lemma_expression_label_free(first, *rhs);
                let (second, rhs_slot) = spec_compile_expression(first, *rhs);
                lemma_label_free_trans(block, first, second);
                if rhs_slot is Ok {
                    let condition = super::lowering::comparison_condition(
                        operator,
                        lhs_slot->Ok_0,
                        rhs_slot->Ok_0,
                    );
                    lemma_predicate_jumps_label_free(second, condition, true_target, false_target);
                    lemma_label_free_trans(
                        block,
                        second,
                        spec_predicate_jumps(second, condition, true_target, false_target).0,
                    );
                }
            }
        },
        _ => {
            lemma_expression_label_free(block, predicate);
            let (first, slot) = spec_compile_expression(block, predicate);
            if slot is Ok {
                let condition = JumpCondition::NotZero(slot->Ok_0);
                lemma_predicate_jumps_label_free(first, condition, true_target, false_target);
                lemma_label_free_trans(
                    block,
                    first,
                    spec_predicate_jumps(first, condition, true_target, false_target).0,
                );
            }
        },
    }
}

/// Lowering a `return` leaves the labels alone.
proof fn lemma_return_label_free(block: BlockView, result: ExpressionView)
    ensures
        label_free(block, spec_compile_return_statement(block, result).0),
{
    lemma_expression_label_free(block, result);
    let (first, slot) = spec_compile_expression(block, result);
    if slot is Ok {
        let set = InstructionView::Opcode {
            destination: first.next_slot(),
            opcode: OpcodeView::SetReturnValue(slot->Ok_0),
        };
        lemma_push_plain(first, set);
        let second = first.push(set);
        lemma_label_free_trans(block, first, second);
        let leave = InstructionView::Opcode {
            destination: second.next_slot(),
            opcode: OpcodeView::Return,
        };
        lemma_push_plain(second, leave);
        lemma_label_free_trans(block, second, second.push(leave));
    }
}

/// Lowering an assignment leaves the labels alone.
proof fn lemma_assignment_label_free(block: BlockView, lhs: Seq<char>, rhs: ExpressionView)
    ensures
        label_free(block, spec_compile_assignment_statement(block, lhs, rhs).0),
{
    lemma_expression_label_free(block, rhs);
    let (first, slot) = spec_compile_expression(block, rhs);
    if slot is Ok {
        match spec_assignment_target(first.frame.resolve(lhs), lhs) {
            Ok(target) => {
                let assign = InstructionView::Assign(target, slot->Ok_0);
                lemma_push_plain(first, assign);
                lemma_label_free_trans(block, first, first.push(assign));
            },
            Err(_) => {},
        }
    }
}

/// Lowering a variable declaration leaves the labels alone.
proof fn lemma_declaration_label_free(block: BlockView, name: Seq<char>, value: ExpressionView)
    ensures
        label_free(block, spec_compile_variable_declaration(block, name, value).0),
{
    lemma_expression_label_free(block, value);
    let (first, slot) = spec_compile_expression(block, value);
    if slot is Ok && first.frame.total_slots() < usize::MAX {
        let offset = first.frame.stack_slots;
        let declared = BlockView { frame: first.frame.declare(name), ..first };
        assert(label_free(first, declared));
        let handle = InstructionView::Opcode {
            destination: declared.next_slot(),
            opcode: OpcodeView::StackVariable(offset),
        };
        lemma_push_plain(declared, handle);
        let second = declared.push(handle);
        lemma_label_free_trans(first, declared, second);
        let assign = InstructionView::Assign(
            crate::ir::AssignmentTarget::StackVariable(offset),
            slot->Ok_0,
        );
        lemma_push_plain(second, assign);
        lemma_label_free_trans(first, second, second.push(assign));
        lemma_label_free_trans(block, first, second.push(assign));
    }
}

/// Making a label keeps the invariant: the label is one of the block, and
/// nothing binds it yet.
pub proof fn lemma_with_label(block: BlockView, name: Seq<char>)
    requires
        labels_sound(block),
        block.labels.len() < u64::MAX,
    ensures
        labels_sound(block.with_label(name)),
        label_effect(block, block.with_label(name), false),
        block.with_label(name).has_label(block.next_label(name)),
        !block.has_label(block.next_label(name)),
        bound_count(block.with_label(name).instructions, block.next_label(name)) == 0,
        forall|label: LabelView|
            block.with_label(name).has_label(label) ==> block.has_label(label) || label
                == block.next_label(name),
{
    let after = block.with_label(name);
    assert forall|label: LabelView| block.has_label(label) implies after.has_label(label) by {}
    assert forall|label: LabelView| !after.has_label(label) implies #[trigger] bound_count(
        after.instructions,
        label,
    ) == 0 by {
        assert(!block.has_label(label));
    }
    assert forall|i: int| 0 <= i < after.instructions.len() implies match jump_target(
        #[trigger] after.instructions[i],
    ) {
        Some(label) => after.has_label(label),
        None => true,
    } by {
        match jump_target(block.instructions[i]) {
            Some(label) => {
                assert(block.has_label(label));
            },
            None => {},
        }
    }
}

/// Binding a label of the block binds it once more, and leaves the other
/// labels alone.
pub proof fn lemma_set_label(block: BlockView, label: LabelView)
    requires
        labels_sound(block),
        block.has_label(label),
    ensures
        labels_sound(block.set_label(label)),
        block.set_label(label).labels == block.labels,
        bound_count(block.set_label(label).instructions, label) == bound_count(
            block.instructions,
            label,
        ) + 1,
        forall|other: LabelView|
            other != label ==> #[trigger] bound_count(block.set_label(label).instructions, other)
                == bound_count(block.instructions, other),
{
    let after = block.set_label(label);
    lemma_bound_count_push(block.instructions, InstructionView::Label(label), label);
    assert forall|other: LabelView| other != label implies #[trigger] bound_count(
        after.instructions,
        other,
    ) == bound_count(block.instructions, other) by {
        lemma_bound_count_push(block.instructions, InstructionView::Label(label), other);
    }
    assert forall|other: LabelView| !after.has_label(other) implies #[trigger] bound_count(
        after.instructions,
        other,
    ) == 0 by {
        assert(other != label);
        assert(bound_count(block.instructions, other) == 0);
    }
}

/// What leaves the labels alone keeps the invariant.
pub proof fn lemma_label_free_sound(before: BlockView, after: BlockView)
    requires
        label_free(before, after),
        labels_sound(before),
    ensures
        labels_sound(after),
        label_effect(before, after, true),
{
    lemma_label_free_law(before, after, true);
}

/// The effects of two pieces of lowering, one after the other.
pub proof fn lemma_label_effect_trans(
    first: BlockView,
    second: BlockView,
    third: BlockView,
    ok: bool,
)
    requires
        label_effect(first, second, true),
        label_effect(second, third, ok),
    ensures
        label_effect(first, third, ok),
{
    assert forall|label: LabelView| first.has_label(label) implies #[trigger] bound_count(
        third.instructions,
        label,
    ) == bound_count(first.instructions, label) by {
        assert(second.has_label(label));
        assert(bound_count(second.instructions, label) == bound_count(first.instructions, label));
    }
    if ok {
        assert forall|label: LabelView|
            third.has_label(label) && !first.has_label(label) implies #[trigger] bound_count(
            third.instructions,
            label,
        ) == 1 by {
            if second.has_label(label) {
                assert(bound_count(second.instructions, label) == 1);
            }
        }
    }
}

/// What a piece of lowering has done to the labels while some of the labels
/// that it made wait to be bound: the labels that wait are bound nowhere,
/// and the others that it made are bound exactly once.
pub open spec fn pending_effect(
    before: BlockView,
    after: BlockView,
    pending: Set<LabelView>,
) -> bool {
    &&& before.labels.is_prefix_of(after.labels)
    &&& keeps_bindings(before, after)
    &&& forall|label: LabelView| #[trigger]
        pending.contains(label) ==> after.has_label(label) && !before.has_label(label)
    &&& forall|label: LabelView|
        after.has_label(label) && !before.has_label(label) ==> #[trigger] bound_count(
            after.instructions,
            label,
        ) == if pending.contains(label) {
            0nat
        } else {
            1nat
        }
}

proof fn lemma_pending_refl(block: BlockView)
    ensures
        pending_effect(block, block, Set::empty()),
{
}

proof fn lemma_pending_free(
    before: BlockView,
    middle: BlockView,
    after: BlockView,
    pending: Set<LabelView>,
)
    requires
        pending_effect(before, middle, pending),
        labels_sound(middle),
        label_free(middle, after),
    ensures
        pending_effect(before, after, pending),
        labels_sound(after),
{
    lemma_label_free_sound(middle, after);
    assert forall|label: LabelView| before.has_label(label) implies #[trigger] bound_count(
        after.instructions,
        label,
    ) == bound_count(before.instructions, label) by {
        assert(bound_count(middle.instructions, label) == bound_count(before.instructions, label));
    }
    assert forall|label: LabelView|
        after.has_label(label) && !before.has_label(label) implies #[trigger] bound_count(
        after.instructions,
        label,
    ) == if pending.contains(label) {
        0nat
    } else {
        1nat
    } by {
        assert(bound_count(middle.instructions, label) == if pending.contains(label) {
            0nat
        } else {
            1nat
        });
    }
}

proof fn lemma_pending_make(
    before: BlockView,
    middle: BlockView,
    name: Seq<char>,
    pending: Set<LabelView>,
)
    requires
        pending_effect(before, middle, pending),
        labels_sound(middle),
        middle.labels.len() < u64::MAX,
    ensures
        pending_effect(before, middle.with_label(name), pending.insert(middle.next_label(name))),
        labels_sound(middle.with_label(name)),
        middle.with_label(name).has_label(middle.next_label(name)),
        !before.has_label(middle.next_label(name)),
        forall|label: LabelView|
            middle.has_label(label) ==> middle.with_label(name).has_label(label),
{
    lemma_with_label(middle, name);
    let after = middle.with_label(name);
    let made = middle.next_label(name);
    assert forall|label: LabelView| middle.has_label(label) implies after.has_label(label) by {}
    assert forall|label: LabelView| before.has_label(label) implies #[trigger] bound_count(
        after.instructions,
        label,
    ) == bound_count(before.instructions, label) by {
        assert(bound_count(middle.instructions, label) == bound_count(before.instructions, label));
    }
    assert forall|label: LabelView|
        after.has_label(label) && !before.has_label(label) implies #[trigger] bound_count(
        after.instructions,
        label,
    ) == if pending.insert(made).contains(label) {
        0nat
    } else {
        1nat
    } by {
        if label == made {
        } else {
            assert(middle.has_label(label));
            assert(bound_count(middle.instructions, label) == if pending.contains(label) {
                0nat
            } else {
                1nat
            });
        }
    }
}

proof fn lemma_pending_bind(
    before: BlockView,
    middle: BlockView,
    label: LabelView,
    pending: Set<LabelView>,
)
    requires
        pending_effect(before, middle, pending),
        labels_sound(middle),
        middle.has_label(label),
        !before.has_label(label),
        pending.contains(label),
    ensures
        pending_effect(before, middle.set_label(label), pending.remove(label)),
        labels_sound(middle.set_label(label)),
{
    lemma_set_label(middle, label);
    let after = middle.set_label(label);
    assert forall|other: LabelView| before.has_label(other) implies #[trigger] bound_count(
        after.instructions,
        other,
    ) == bound_count(before.instructions, other) by {
        assert(other != label);
        assert(bound_count(middle.instructions, other) == bound_count(before.instructions, other));
    }
    assert forall|other: LabelView|
        after.has_label(other) && !before.has_label(other) implies #[trigger] bound_count(
        after.instructions,
        other,
    ) == if pending.remove(label).contains(other) {
        0nat
    } else {
        1nat
    } by {
        assert(bound_count(middle.instructions, other) == if pending.contains(other) {
            0nat
        } else {
            1nat
        });
    }
}

proof fn lemma_pending_then(
    before: BlockView,
    middle: BlockView,
    after: BlockView,
    pending: Set<LabelView>,
    ok: bool,
)
    requires
        pending_effect(before, middle, pending),
        label_effect(middle, after, ok),
    ensures
        ok ==> pending_effect(before, after, pending),
        label_effect(before, after, false),
{
    assert forall|label: LabelView| before.has_label(label) implies #[trigger] bound_count(
        after.instructions,
        label,
    ) == bound_count(before.instructions, label) by {
        assert(middle.has_label(label));
        assert(bound_count(middle.instructions, label) == bound_count(before.instructions, label));
    }
    if ok {
        assert forall|label: LabelView|
            after.has_label(label) && !before.has_label(label) implies #[trigger] bound_count(
            after.instructions,
            label,
        ) == if pending.contains(label) {
            0nat
        } else {
            1nat
        } by {
            if middle.has_label(label) {
                assert(bound_count(middle.instructions, label) == if pending.contains(label) {
                    0nat
                } else {
                    1nat
                });
            } else {
                assert(bound_count(after.instructions, label) == 1);
                assert(!pending.contains(label));
            }
        }
    }
}

/// The law of the labels holds of the lowering of a statement.
pub proof fn lemma_statement_labels(block: BlockView, statement: StatementView)
    ensures
        label_law(
            block,
            spec_compile_statement(block, statement).0,
            spec_compile_statement(block, statement).1 is Ok,
        ),
    decreases statement, 0nat, 0nat,
{
    let (after, result) = spec_compile_statement(block, statement);
    match statement {
        StatementView::Expression(expression) => {
            lemma_expression_label_free(block, expression);
            lemma_label_free_law(block, after, result is Ok);
        },
        StatementView::FunctionDefinition(_) => {
            lemma_literal_label_free(block, LiteralView::Integer(0));
            lemma_label_free_law(block, after, result is Ok);
        },
        StatementView::VariableDeclaration(name, value) => {
            lemma_declaration_label_free(block, name, value);
            lemma_label_free_law(block, after, result is Ok);
        },
        StatementView::Return(value) => {
            lemma_return_label_free(block, value);
            lemma_label_free_law(block, after, result is Ok);
        },
        StatementView::Assignment(lhs, rhs) => {
            lemma_assignment_label_free(block, lhs, rhs);
            lemma_label_free_law(block, after, result is Ok);
        },
        StatementView::Condition(branches) => {
            let end_label = block.next_label("condition end"@);
            let made = block.with_label("condition end"@);
            lemma_branches_labels(made, branches, 0, end_label, seq![]);
            let (lowered, results) = spec_compile_branches(made, branches, 0, end_label, seq![]);
            if after.labels.len() <= u64::MAX && labels_sound(block) {
                lemma_pending_refl(block);
                lemma_pending_make(block, block, "condition end"@, Set::empty());
                let waiting = Set::<LabelView>::empty().insert(end_label);
                lemma_pending_then(block, made, lowered, waiting, results is Ok);
                match results {
                    Ok(results) => {
                        lemma_pending_bind(block, lowered, end_label, waiting);
                        let bound = lowered.set_label(end_label);
                        assert(waiting.remove(end_label) =~= Set::<LabelView>::empty());
                        let join = InstructionView::Opcode {
                            destination: bound.next_slot(),
                            opcode: OpcodeView::PhiEnd(results),
                        };
                        lemma_push_plain(bound, join);
                        lemma_pending_free(block, bound, bound.push(join), Set::empty());
                    },
                    Err(_) => {},
                }
            }
        },
        StatementView::Loop(loop_statement) => {
            let start_label = block.next_label("loop start"@);
            let first = block.with_label("loop start"@);
            let test_label = first.next_label("loop test"@);
            let second = first.with_label("loop test"@);
            let jumped = second.push_op(
                OpcodeView::Jump(JumpCondition::Unconditional, test_label),
            );
            let started = jumped.set_label(start_label);
            lemma_block_labels(started, loop_statement.block, 0, None);
            let (lowered, body) = spec_compile_block(started, loop_statement.block, 0, None);
            if body is Ok {
                lemma_predicate_label_free_lengths(
                    lowered.set_label(test_label),
                    loop_statement.predicate,
                    start_label,
                    None,
                );
            }
            if after.labels.len() <= u64::MAX && labels_sound(block) {
                lemma_pending_refl(block);
                lemma_pending_make(block, block, "loop start"@, Set::empty());
                let one = Set::<LabelView>::empty().insert(start_label);
                lemma_pending_make(block, first, "loop test"@, one);
                let both = one.insert(test_label);
                lemma_push_jump(second, JumpCondition::Unconditional, test_label);
                lemma_pending_free(block, second, jumped, both);
                lemma_pending_bind(block, jumped, start_label, both);
                let other = both.remove(start_label);
                assert(other =~= Set::<LabelView>::empty().insert(test_label));
                lemma_pending_then(block, started, lowered, other, body is Ok);
                if body is Ok {
                    lemma_pending_bind(block, lowered, test_label, other);
                    let tested = lowered.set_label(test_label);
                    assert(other.remove(test_label) =~= Set::<LabelView>::empty());
                    lemma_predicate_label_free(
                        tested,
                        loop_statement.predicate,
                        start_label,
                        None,
                    );
                    lemma_pending_free(block, tested, after, Set::empty());
                }
            }
        },
    }
}

/// Lowering a predicate makes no label.
proof fn lemma_predicate_label_free_lengths(
    block: BlockView,
    predicate: ExpressionView,
    true_target: LabelView,
    false_target: Option<LabelView>,
)
    ensures
        spec_compile_predicate(block, predicate, true_target, false_target).0.labels
            == block.labels,
{
    match predicate {
        ExpressionView::BinaryExpression(lhs, BinaryOperator::ComparisonOperator(operator), rhs) => {
            lemma_expression_label_free(block, *lhs);
            let (first, lhs_slot) = spec_compile_expression(block, *lhs);
            if lhs_slot is Ok {
                lemma_expression_label_free(first, *rhs);
            }
        },
        _ => {
            lemma_expression_label_free(block, predicate);
        },
    }
}

/// The law of the labels holds of the lowering of the statements of a
/// block.
pub proof fn lemma_block_labels(
    block: BlockView,
    statements: Seq<StatementView>,
    from: int,
    last: Option<Slot>,
)
    ensures
        label_law(
            block,
            spec_compile_block(block, statements, from, last).0,
            spec_compile_block(block, statements, from, last).1 is Ok,
        ),
    decreases statements, statements.len() - from, 0nat,
{
    let (after, result) = spec_compile_block(block, statements, from, last);
    if 0 <= from < statements.len() {
        lemma_statement_labels(block, statements[from]);
        let (next, slot) = spec_compile_statement(block, statements[from]);
        if slot is Ok {
            lemma_block_labels(next, statements, from + 1, Some(slot->Ok_0));
            if after.labels.len() <= u64::MAX && labels_sound(block) {
                lemma_label_effect_trans(block, next, after, result is Ok);
            }
        }
    } else {
        match last {
            Some(_) => {
                if labels_sound(block) {
                    lemma_pending_refl(block);
                }
            },
            None => {
                lemma_literal_label_free(block, LiteralView::Integer(0));
                lemma_label_free_law(block, after, result is Ok);
            },
        }
    }
}

/// The law of the labels holds of the lowering of the branches of a
/// condition, where the label of the condition's end is one of the block.
pub proof fn lemma_branches_labels(
    block: BlockView,
    branches: Seq<(Option<ExpressionView>, Seq<StatementView>)>,
    from: int,
    end_label: LabelView,
    results: Seq<Slot>,
)
    ensures
        block.labels.len() <= spec_compile_branches(
            block,
            branches,
            from,
            end_label,
            results,
        ).0.labels.len(),
        spec_compile_branches(block, branches, from, end_label, results).0.labels.len()
            <= u64::MAX && labels_sound(block) && block.has_label(end_label) ==> labels_sound(
            spec_compile_branches(block, branches, from, end_label, results).0,
        ) && label_effect(
            block,
            spec_compile_branches(block, branches, from, end_label, results).0,
            spec_compile_branches(block, branches, from, end_label, results).1 is Ok,
        ),
    decreases branches, branches.len() - from, 0nat,
{
    let (after, lowered) = spec_compile_branches(block, branches, from, end_label, results);
    if 0 <= from < branches.len() {
        let is_last_branch = from + 1 == branches.len();
        let next_label = block.next_label("condition next"@);
        let entered = if is_last_branch {
            block
        } else {
            block.with_label("condition next"@)
        };
        let block_label = entered.next_label("condition block"@);
        let false_target = if is_last_branch {
            Some(end_label)
        } else {
            Some(next_label)
        };
        let (tested, test) = match branches[from].0 {
            Some(predicate) => {
                let (jumped, slot) = spec_compile_predicate(
                    entered.with_label("condition block"@),
                    predicate,
                    block_label,
                    false_target,
                );
                match slot {
                    Err(error) => (jumped, Err::<Slot, CompileErrorView>(error)),
                    Ok(slot) => (jumped.set_label(block_label), Ok(slot)),
                }
            },
            None => (entered, Ok(entered.next_slot())),
        };
        // the lengths
        match branches[from].0 {
            Some(predicate) => {
                lemma_predicate_label_free_lengths(
                    entered.with_label("condition block"@),
                    predicate,
                    block_label,
                    false_target,
                );
            },
            None => {},
        }
        let (body, result) = spec_compile_block(tested, branches[from].1, 0, None);
        let left = if is_last_branch {
            body
        } else {
            body.push_op(OpcodeView::Jump(JumpCondition::Unconditional, end_label)).set_label(
                next_label,
            )
        };
        if test is Ok {
            lemma_block_labels(tested, branches[from].1, 0, None);
            if result is Ok {
                lemma_branches_labels(left, branches, from + 1, end_label, results.push(result->Ok_0));
            }
        }
        if after.labels.len() <= u64::MAX && labels_sound(block) && block.has_label(end_label) {
            lemma_pending_refl(block);
            let waiting = if is_last_branch {
                Set::<LabelView>::empty()
            } else {
                Set::<LabelView>::empty().insert(next_label)
            };
            if !is_last_branch {
                lemma_pending_make(block, block, "condition next"@, Set::empty());
            }
            assert(pending_effect(block, entered, waiting));
            assert(labels_sound(entered));
            assert(entered.has_label(end_label));
            match branches[from].0 {
                Some(predicate) => {
                    lemma_pending_make(block, entered, "condition block"@, waiting);
                    let made = entered.with_label("condition block"@);
                    let both = waiting.insert(block_label);
                    assert(made.has_label(end_label));
                    assert(!is_last_branch ==> made.has_label(next_label));
                    lemma_predicate_label_free(made, predicate, block_label, false_target);
                    let (jumped, slot) = spec_compile_predicate(
                        made,
                        predicate,
                        block_label,
                        false_target,
                    );
                    lemma_pending_free(block, made, jumped, both);
                    if slot is Ok {
                        lemma_pending_bind(block, jumped, block_label, both);
                        assert(both.remove(block_label) =~= waiting);
                    }
                },
                None => {},
            }
            if test is Ok {
                assert(pending_effect(block, tested, waiting));
                assert(labels_sound(tested));
                lemma_pending_then(block, tested, body, waiting, result is Ok);
                if result is Ok {
                    assert(body.has_label(end_label));
                    if !is_last_branch {
                        assert(body.has_label(next_label));
                        lemma_push_jump(body, JumpCondition::Unconditional, end_label);
                        let jumped = body.push_op(
                            OpcodeView::Jump(JumpCondition::Unconditional, end_label),
                        );
                        lemma_pending_free(block, body, jumped, waiting);
                        lemma_pending_bind(block, jumped, next_label, waiting);
                        assert(waiting.remove(next_label) =~= Set::<LabelView>::empty());
                    }
                    assert(pending_effect(block, left, Set::empty()));
                    assert(left.has_label(end_label));
                    lemma_label_effect_trans(block, left, after, lowered is Ok);
                }
            }
        }
    } else {
        if labels_sound(block) {
            lemma_pending_refl(block);
        }
    }
}

/// The law of the labels holds of the lowering of the statements of a
/// function's body.
proof fn lemma_body_statements_labels(
    block: BlockView,
    statements: Seq<StatementView>,
    from: int,
    last: Option<Slot>,
)
    ensures
        label_law(
            block,
            spec_compile_body_statements(block, statements, from, last).0,
            spec_compile_body_statements(block, statements, from, last).1 is Ok,
        ),
    decreases statements.len() - from,
{
    let (after, result) = spec_compile_body_statements(block, statements, from, last);
    if 0 <= from < statements.len() {
        lemma_statement_labels(block, statements[from]);
        let (next, slot) = spec_compile_statement(block, statements[from]);
        if slot is Ok && !super::lowering::is_return(statements[from]) {
            lemma_body_statements_labels(next, statements, from + 1, Some(slot->Ok_0));
            if after.labels.len() <= u64::MAX && labels_sound(block) {
                lemma_label_effect_trans(block, next, after, result is Ok);
            }
        }
    } else {
        if labels_sound(block) {
            lemma_pending_refl(block);
        }
    }
}

/// The law of the labels holds of the lowering of a function's body.
pub proof fn lemma_function_body_labels(block: BlockView, statements: Seq<StatementView>)
    ensures
        label_law(
            block,
            spec_compile_function_body(block, statements).0,
            spec_compile_function_body(block, statements).1 is Ok,
        ),
{
    let (after, result) = spec_compile_function_body(block, statements);
    lemma_body_statements_labels(block, statements, 0, None);
    let (lowered, body) = spec_compile_body_statements(block, statements, 0, None);
    match body {
        Err(_) => {},
        Ok((last, returned)) => {
            let valued = match last {
                Some(_) => lowered,
                None => spec_compile_literal(lowered, LiteralView::Integer(0)).0,
            };
            lemma_literal_label_free(lowered, LiteralView::Integer(0));
            assert(label_free(lowered, valued));
            let value = match last {
                Some(slot) => slot,
                None => lowered.next_slot(),
            };
            let set = InstructionView::Opcode {
                destination: valued.next_slot(),
                opcode: OpcodeView::SetReturnValue(value),
            };
            lemma_push_plain(valued, set);
            let leave = InstructionView::Opcode {
                destination: valued.push(set).next_slot(),
                opcode: OpcodeView::Return,
            };
            lemma_push_plain(valued.push(set), leave);
            lemma_label_free_trans(valued, valued.push(set), valued.push(set).push(leave));
            assert(label_free(valued, after));
            lemma_label_free_trans(lowered, valued, after);
            if after.labels.len() <= u64::MAX && labels_sound(block) {
                lemma_label_free_sound(lowered, after);
                lemma_label_effect_trans(block, lowered, after, true);
            }
        },
    }
}

/// An empty block for a function whose names live in `frame`.
pub open spec fn empty_block(frame: StackFrameView) -> BlockView {
    BlockView { frame, instructions: Seq::empty(), labels: Seq::empty() }
}

/// Every label that a jump refers to is bound exactly once.
///
/// Where the lowering of a function's body succeeds, each jump among the
/// instructions goes to a label that was made for the function, and exactly
/// one instruction binds that label.  In fact each label that was made for
/// the function is bound exactly once.  The number of labels is taken to be
/// one that a 64-bit counter can hold, as it is of every block in memory.
pub proof fn lemma_jump_targets_are_bound_once(
    frame: StackFrameView,
    statements: Seq<StatementView>,
)
    requires
        spec_compile_function_body(empty_block(frame), statements).1 is Ok,
        spec_compile_function_body(empty_block(frame), statements).0.labels.len() <= u64::MAX,
    ensures
        ({
            let lowered = spec_compile_function_body(empty_block(frame), statements).0;
            &&& forall|i: int|
                0 <= i < lowered.instructions.len() ==> match jump_target(
                    #[trigger] lowered.instructions[i],
                ) {
                    Some(label) => bound_count(lowered.instructions, label) == 1,
                    None => true,
                }
            &&& forall|label: LabelView|
                lowered.has_label(label) ==> #[trigger] bound_count(lowered.instructions, label)
                    == 1
            &&& forall|label: LabelView|
                !lowered.has_label(label) ==> #[trigger] bound_count(lowered.instructions, label)
                    == 0
        }),
{
    let empty = empty_block(frame);
    let lowered = spec_compile_function_body(empty, statements).0;
    lemma_function_body_labels(empty, statements);
    assert(labels_sound(empty)) by {
        assert forall|label: LabelView| #[trigger] bound_count(empty.instructions, label) == 0 by {}
    }
    assert forall|label: LabelView| lowered.has_label(label) implies #[trigger] bound_count(
        lowered.instructions,
        label,
    ) == 1 by {
        assert(!empty.has_label(label));
    }
    assert forall|i: int| 0 <= i < lowered.instructions.len() implies match jump_target(
        #[trigger] lowered.instructions[i],
    ) {
        Some(label) => bound_count(lowered.instructions, label) == 1,
        None => true,
    } by {
        match jump_target(lowered.instructions[i]) {
            Some(label) => {
                assert(lowered.has_label(label));
            },
            None => {},
        }
    }
}

} // verus!
