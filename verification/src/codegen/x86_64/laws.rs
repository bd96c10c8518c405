//! What holds of the code of every function.

use vstd::prelude::*;
use super::abi::{spec_function_epilogue, spec_function_prelude};
use super::codegen_state::{spec_epilogue_label, Emission};
use super::error::CodegenErrorView;
use super::instruction::{
    spec_assign, spec_binary_operator, spec_codegen_instruction, spec_compare_branch,
    spec_emit_slots, spec_jump, spec_test_branch,
};
use super::machine::{MachineInstruction, MachineLabel, Register};
use super::allocation::{
    has_registers, lemma_allocation_covers_inputs, spec_allocate_registers, spec_allocation_from,
};
use super::slot::{missing_register_error, missing_value_error, spec_emit_slot};
use crate::ir::opcode::OpcodeView;
use crate::ir::JumpCondition;
use super::{
    initial_emission, return_pair_error, spec_codegen, spec_codegen_instructions, unpaired_return_value,
};
use crate::ir::block::BlockView;
use crate::ir::instruction::InstructionView;
use crate::ir::Slot;

verus! {

/// Whether `later` is `earlier` with more instructions after it.
pub open spec fn continues(earlier: Emission, later: Emission) -> bool {
    earlier.instructions.is_prefix_of(later.instructions)
}

proof fn lemma_emit_slot_continues(emission: Emission, registers: Map<u64, Register>, slot: Slot)
    requires
        spec_emit_slot(emission, registers, slot) is Ok,
    ensures
        continues(emission, spec_emit_slot(emission, registers, slot)->Ok_0.0),
{
}

proof fn lemma_emit_slots_continues(
    emission: Emission,
    registers: Map<u64, Register>,
    slots: Seq<Slot>,
    from: int,
)
    requires
        spec_emit_slots(emission, registers, slots, from) is Ok,
    ensures
        continues(emission, spec_emit_slots(emission, registers, slots, from)->Ok_0),
    decreases slots.len() - from,
{
    if 0 <= from < slots.len() {
        let next = spec_emit_slot(emission, registers, slots[from])->Ok_0.0;
        lemma_emit_slot_continues(emission, registers, slots[from]);
        lemma_emit_slots_continues(next, registers, slots, from + 1);
    }
}

proof fn lemma_test_branch_continues(
    emission: Emission,
    registers: Map<u64, Register>,
    slot: Slot,
    condition: super::machine::BranchCondition,
    target: MachineLabel,
)
    requires
        spec_test_branch(emission, registers, slot, condition, target) is Ok,
    ensures
        continues(emission, spec_test_branch(emission, registers, slot, condition, target)->Ok_0),
{
}

proof fn lemma_compare_branch_continues(
    emission: Emission,
    registers: Map<u64, Register>,
    lhs: Slot,
    rhs: Slot,
    condition: super::machine::BranchCondition,
    target: MachineLabel,
)
    requires
        spec_compare_branch(emission, registers, lhs, rhs, condition, target) is Ok,
    ensures
        continues(
            emission,
            spec_compare_branch(emission, registers, lhs, rhs, condition, target)->Ok_0,
        ),
{
}

proof fn lemma_jump_continues(
    emission: Emission,
    registers: Map<u64, Register>,
    condition: JumpCondition,
    target: MachineLabel,
)
    requires
        spec_jump(emission, registers, condition, target) is Ok,
    ensures
        continues(emission, spec_jump(emission, registers, condition, target)->Ok_0),
{
    match condition {
        JumpCondition::Unconditional => {},
        JumpCondition::Zero(slot) => {
            lemma_test_branch_continues(
                emission,
                registers,
                slot,
                super::machine::BranchCondition::Equal,
                target,
            );
        },
        JumpCondition::NotZero(slot) => {
            lemma_test_branch_continues(
                emission,
                registers,
                slot,
                super::machine::BranchCondition::NotEqual,
                target,
            );
        },
        JumpCondition::Equal(lhs, rhs) => {
            lemma_compare_branch_continues(
                emission,
                registers,
                lhs,
                rhs,
                super::machine::BranchCondition::Equal,
                target,
            );
        },
        JumpCondition::NotEqual(lhs, rhs) => {
            lemma_compare_branch_continues(
                emission,
                registers,
                lhs,
                rhs,
                super::machine::BranchCondition::NotEqual,
                target,
            );
        },
        JumpCondition::Greater(lhs, rhs) => {
            lemma_compare_branch_continues(
                emission,
                registers,
                lhs,
                rhs,
                super::machine::BranchCondition::Greater,
                target,
            );
        },
        JumpCondition::GreaterOrEqual(lhs, rhs) => {
            lemma_compare_branch_continues(
                emission,
                registers,
                lhs,
                rhs,
                super::machine::BranchCondition::GreaterOrEqual,
                target,
            );
        },
        JumpCondition::Less(lhs, rhs) => {
            lemma_compare_branch_continues(
                emission,
                registers,
                lhs,
                rhs,
                super::machine::BranchCondition::Less,
                target,
            );
        },
        JumpCondition::LessOrEqual(lhs, rhs) => {
            lemma_compare_branch_continues(
                emission,
                registers,
                lhs,
                rhs,
                super::machine::BranchCondition::LessOrEqual,
                target,
            );
        },
    }
}

proof fn lemma_binary_operator_continues(
    emission: Emission,
    registers: Map<u64, Register>,
    destination: Slot,
    lhs: Slot,
    operator: crate::parser::BinaryOperator,
    rhs: Slot,
)
    requires
        spec_binary_operator(emission, registers, destination, lhs, operator, rhs) is Ok,
    ensures
        continues(
            emission,
            spec_binary_operator(emission, registers, destination, lhs, operator, rhs)->Ok_0,
        ),
{
}

proof fn lemma_assign_continues(
    emission: Emission,
    registers: Map<u64, Register>,
    target: crate::ir::AssignmentTarget,
    source: Slot,
)
    requires
        spec_assign(emission, registers, target, source) is Ok,
    ensures
        continues(emission, spec_assign(emission, registers, target, source)->Ok_0),
{
}

/// The code of an instruction is added after the code emitted before it.
pub proof fn lemma_codegen_instruction_continues(
    emission: Emission,
    registers: Map<u64, Register>,
    instruction: InstructionView,
    epilogue: MachineLabel,
)
    requires
        spec_codegen_instruction(emission, registers, instruction, epilogue) is Ok,
    ensures
        continues(
            emission,
            spec_codegen_instruction(emission, registers, instruction, epilogue)->Ok_0,
        ),
{
    reveal(spec_codegen_instruction);
    match instruction {
        InstructionView::Label(_) => {},
        InstructionView::Assign(target, source) => {
            lemma_assign_continues(emission, registers, target, source);
        },
        InstructionView::Opcode { destination, opcode } => match opcode {
            OpcodeView::CallFunction(_, arguments) => {
                lemma_emit_slots_continues(emission, registers, arguments, 0);
            },
            OpcodeView::BinaryOperator(lhs, operator, rhs) => {
                lemma_binary_operator_continues(
                    emission,
                    registers,
                    destination,
                    lhs,
                    operator,
                    rhs,
                );
            },
            OpcodeView::Jump(condition, label) => {
                let (labels, target) = super::codegen_state::spec_label(emission.labels, label);
                lemma_jump_continues(
                    Emission { labels, ..emission },
                    registers,
                    condition,
                    target,
                );
            },
            OpcodeView::SetReturnValue(slot) => {
                lemma_emit_slot_continues(emission, registers, slot);
            },
            _ => {},
        },
    }
}

/// The code of the instructions is added after the code emitted before
/// them.
pub proof fn lemma_codegen_instructions_continue(
    emission: Emission,
    registers: Map<u64, Register>,
    instructions: Seq<InstructionView>,
    epilogue: MachineLabel,
    from: int,
)
    requires
        spec_codegen_instructions(emission, registers, instructions, epilogue, from) is Ok,
    ensures
        continues(
            emission,
            spec_codegen_instructions(emission, registers, instructions, epilogue, from)->Ok_0,
        ),
    decreases instructions.len() - from,
{
    if 0 <= from < instructions.len() {
        let next = spec_codegen_instruction(emission, registers, instructions[from], epilogue)->Ok_0;
        lemma_codegen_instruction_continues(emission, registers, instructions[from], epilogue);
        lemma_codegen_instructions_continue(next, registers, instructions, epilogue, from + 1);
        assert(continues(emission, next));
    }
}

/// The prelude and the epilogue of a function are a pair.
///
/// The code of every function begins with its prelude and ends with the
/// epilogue label and its epilogue.  Where the function has stack slots,
/// the prelude saves the frame pointer, sets it to the stack pointer and
/// makes room for the slots, and the epilogue sets the stack pointer back to
/// the frame pointer and restores the frame pointer before it returns.
/// Where the function has none, the prelude is empty and the epilogue only
/// returns.
pub proof fn lemma_prelude_and_epilogue_are_paired(block: BlockView)
    requires
        spec_codegen(block) is Ok,
    ensures
        spec_function_prelude(block.frame.stack_slots) is Ok,
        ({
            let code = spec_codegen(block)->Ok_0.instructions;
            let prelude = spec_function_prelude(block.frame.stack_slots)->Ok_0;
            let epilogue = spec_function_epilogue(block.frame.stack_slots);
            &&& prelude.len() + 1 + epilogue.len() <= code.len()
            &&& code.take(prelude.len() as int) == prelude
            &&& code.skip(code.len() - epilogue.len() - 1) == seq![
                MachineInstruction::Label(spec_epilogue_label()),
            ] + epilogue
            &&& block.frame.stack_slots > 0 ==> {
                &&& code[0] == MachineInstruction::Push(Register::Rbp)
                &&& code[1] == MachineInstruction::Move(Register::Rbp, Register::Rsp)
                &&& code[2] == MachineInstruction::SubtractImmediate(
                    Register::Rsp,
                    (8 * block.frame.stack_slots) as i32,
                )
                &&& code[code.len() - 3] == MachineInstruction::Move(
                    Register::Rsp,
                    Register::Rbp,
                )
                &&& code[code.len() - 2] == MachineInstruction::Pop(Register::Rbp)
                &&& code[code.len() - 1] == MachineInstruction::Ret
            }
            &&& block.frame.stack_slots == 0 ==> {
                &&& prelude.len() == 0
                &&& code[code.len() - 1] == MachineInstruction::Ret
                &&& code[code.len() - 2] == MachineInstruction::Label(spec_epilogue_label())
            }
        }),
{
    let registers = super::allocation::spec_allocate_registers(block.instructions)->Ok_0;
    let prelude = spec_function_prelude(block.frame.stack_slots)->Ok_0;
    let epilogue = spec_function_epilogue(block.frame.stack_slots);
    let start = initial_emission().emit_all(prelude);
    assert(start.instructions =~= prelude);
    lemma_codegen_instructions_continue(
        start,
        registers,
        block.instructions,
        spec_epilogue_label(),
        0,
    );
    let body = spec_codegen_instructions(
        start,
        registers,
        block.instructions,
        spec_epilogue_label(),
        0,
    )->Ok_0;
    let code = spec_codegen(block)->Ok_0.instructions;
    let marker = seq![MachineInstruction::Label(spec_epilogue_label())];
    assert(code == body.instructions.push(MachineInstruction::Label(spec_epilogue_label()))
        + epilogue);
    assert(code.take(prelude.len() as int) =~= prelude);
    assert(code.skip(code.len() - epilogue.len() - 1) =~= marker + epilogue);
}

/// Whether the emitter failed for want of a register for a slot.
pub open spec fn lacks_register<T>(result: Result<T, CodegenErrorView>) -> bool {
    result is Err && result->Err_0 == missing_register_error()
}

proof fn lemma_errors_differ()
    ensures
        missing_value_error() != missing_register_error(),
{
    reveal_strlit("slot has no value");
    reveal_strlit("no register mapped for slot");
    assert("slot has no value"@.len() != "no register mapped for slot"@.len());
}

proof fn lemma_emit_slot_has_register(
    emission: Emission,
    registers: Map<u64, Register>,
    slot: Slot,
)
    requires
        registers.contains_key(slot.0),
    ensures
        !lacks_register(spec_emit_slot(emission, registers, slot)),
{
    lemma_errors_differ();
}

proof fn lemma_emit_slots_have_registers(
    emission: Emission,
    registers: Map<u64, Register>,
    slots: Seq<Slot>,
    from: int,
)
    requires
        0 <= from,
        has_registers(registers, slots, from),
    ensures
        !lacks_register(spec_emit_slots(emission, registers, slots, from)),
    decreases slots.len() - from,
{
    if from < slots.len() {
        assert(registers.contains_key(slots[from].0));
        lemma_emit_slot_has_register(emission, registers, slots[from]);
        match spec_emit_slot(emission, registers, slots[from]) {
            Ok((next, _)) => {
                lemma_emit_slots_have_registers(next, registers, slots, from + 1);
            },
            Err(_) => {},
        }
    }
}

/// The code of an instruction is emitted without want of a register, where
/// each slot that the instruction reads has one.
pub proof fn lemma_codegen_instruction_has_registers(
    emission: Emission,
    registers: Map<u64, Register>,
    instruction: InstructionView,
    epilogue: MachineLabel,
)
    requires
        has_registers(registers, instruction.inputs(), 0),
    ensures
        !lacks_register(spec_codegen_instruction(emission, registers, instruction, epilogue)),
{
    reveal(spec_codegen_instruction);
    lemma_errors_differ();
    let inputs = instruction.inputs();
    match instruction {
        InstructionView::Label(_) => {},
        InstructionView::Assign(_, source) => {
            assert(inputs[0] == source);
            assert(registers.contains_key(inputs[0].0));
        },
        InstructionView::Opcode { destination, opcode } => match opcode {
            OpcodeView::CallFunction(_, arguments) => {
                lemma_emit_slots_have_registers(emission, registers, arguments, 0);
            },
            OpcodeView::BinaryOperator(lhs, _, rhs) => {
                assert(inputs[0] == lhs && inputs[1] == rhs);
                assert(registers.contains_key(inputs[0].0));
                assert(registers.contains_key(inputs[1].0));
            },
            OpcodeView::SetReturnValue(slot) => {
                assert(inputs[0] == slot);
                assert(registers.contains_key(inputs[0].0));
            },
            OpcodeView::Jump(condition, _) => match condition {
                JumpCondition::Unconditional => {},
                JumpCondition::Zero(slot) | JumpCondition::NotZero(slot) => {
                    assert(inputs[0] == slot);
                    assert(registers.contains_key(inputs[0].0));
                },
                JumpCondition::Greater(lhs, rhs)
                | JumpCondition::GreaterOrEqual(lhs, rhs)
                | JumpCondition::Less(lhs, rhs)
                | JumpCondition::LessOrEqual(lhs, rhs)
                | JumpCondition::Equal(lhs, rhs)
                | JumpCondition::NotEqual(lhs, rhs) => {
                    assert(inputs[0] == lhs && inputs[1] == rhs);
                    assert(registers.contains_key(inputs[0].0));
                    assert(registers.contains_key(inputs[1].0));
                },
            },
            _ => {},
        },
    }
}

proof fn lemma_codegen_instructions_have_registers(
    emission: Emission,
    registers: Map<u64, Register>,
    instructions: Seq<InstructionView>,
    epilogue: MachineLabel,
    from: int,
)
    requires
        0 <= from,
        forall|i: int|
            from <= i < instructions.len() ==> has_registers(
                registers,
                (#[trigger] instructions[i]).inputs(),
                0,
            ),
    ensures
        !lacks_register(
            spec_codegen_instructions(emission, registers, instructions, epilogue, from),
        ),
    decreases instructions.len() - from,
{
    if from < instructions.len() {
        reveal_strlit("return value without a return");
        reveal_strlit("no register mapped for slot");
        assert("return value without a return"@.len() != "no register mapped for slot"@.len());
        lemma_codegen_instruction_has_registers(emission, registers, instructions[from], epilogue);
        match spec_codegen_instruction(emission, registers, instructions[from], epilogue) {
            Ok(next) => {
                lemma_codegen_instructions_have_registers(
                    next,
                    registers,
                    instructions,
                    epilogue,
                    from + 1,
                );
            },
            Err(_) => {},
        }
    }
}

/// Every slot that the emitted code reads was assigned a register by the
/// allocator.
///
/// The emitter fails with an internal error where it has to bring a slot
/// into a register and the allocator has assigned none to the slot.  That
/// never happens: where the allocation succeeds, the emitter does not fail
/// for want of a register.
pub proof fn lemma_emitted_slots_have_registers(block: BlockView)
    ensures
        !lacks_register(spec_codegen(block)),
{
    lemma_errors_differ();
    reveal_strlit("stack frame too large");
    reveal_strlit("register spilling");
    reveal_strlit("functions with arity greater than 6");
    reveal_strlit("destination register not yet set");
    reveal_strlit("no register mapped for slot");
    match spec_allocate_registers(block.instructions) {
        Ok(registers) => {
            lemma_allocation_covers_inputs(block.instructions, 0);
            match spec_function_prelude(block.frame.stack_slots) {
                Ok(prelude) => {
                    lemma_codegen_instructions_have_registers(
                        initial_emission().emit_all(prelude),
                        registers,
                        block.instructions,
                        spec_epilogue_label(),
                        0,
                    );
                },
                Err(_) => {},
            }
        },
        Err(error) => {
            lemma_allocation_errors(block.instructions, 0);
        },
    }
}

/// The errors of the allocator are none of want of a register for a slot
/// that the emitter reads.
proof fn lemma_allocation_errors(instructions: Seq<InstructionView>, start: int)
    requires
        0 <= start,
    ensures
        !lacks_register(spec_allocation_from(instructions, start)),
    decreases instructions.len() - start,
{
    reveal_strlit("register spilling");
    reveal_strlit("functions with arity greater than 6");
    reveal_strlit("destination register not yet set");
    reveal_strlit("no register mapped for slot");
    assert("destination register not yet set"@.len() != "no register mapped for slot"@.len());
    if start < instructions.len() {
        lemma_allocation_errors(instructions, start + 1);
    }
}

/// Whether the emitter failed because a return value was set without a
/// return after it.
pub open spec fn lacks_return<T>(result: Result<T, CodegenErrorView>) -> bool {
    result is Err && result->Err_0 == return_pair_error()
}

proof fn lemma_return_error_differs()
    ensures
        missing_value_error() != return_pair_error(),
        missing_register_error() != return_pair_error(),
        super::allocation::destination_error() != return_pair_error(),
{
    reveal_strlit("slot has no value");
    reveal_strlit("no register mapped for slot");
    reveal_strlit("destination register not yet set");
    reveal_strlit("return value without a return");
    assert("slot has no value"@.len() != "return value without a return"@.len());
    assert("no register mapped for slot"@.len() != "return value without a return"@.len());
    assert("destination register not yet set"@.len() != "return value without a return"@.len());
}

proof fn lemma_emit_slots_return(
    emission: Emission,
    registers: Map<u64, Register>,
    slots: Seq<Slot>,
    from: int,
)
    ensures
        !lacks_return(spec_emit_slots(emission, registers, slots, from)),
    decreases slots.len() - from,
{
    lemma_return_error_differs();
    if 0 <= from < slots.len() {
        match spec_emit_slot(emission, registers, slots[from]) {
            Ok((next, _)) => {
                lemma_emit_slots_return(next, registers, slots, from + 1);
            },
            Err(_) => {},
        }
    }
}

proof fn lemma_jump_return(
    emission: Emission,
    registers: Map<u64, Register>,
    condition: JumpCondition,
    target: MachineLabel,
)
    ensures
        !lacks_return(spec_jump(emission, registers, condition, target)),
{
    lemma_return_error_differs();
}

/// No single instruction fails for want of a return.
proof fn lemma_codegen_instruction_return(
    emission: Emission,
    registers: Map<u64, Register>,
    instruction: InstructionView,
    epilogue: MachineLabel,
)
    ensures
        !lacks_return(spec_codegen_instruction(emission, registers, instruction, epilogue)),
{
    reveal(spec_codegen_instruction);
    lemma_return_error_differs();
    match instruction {
        InstructionView::Opcode { destination, opcode } => match opcode {
            OpcodeView::CallFunction(_, arguments) => {
                lemma_emit_slots_return(emission, registers, arguments, 0);
            },
            OpcodeView::Jump(condition, label) => {
                let (labels, target) = super::codegen_state::spec_label(emission.labels, label);
                lemma_jump_return(Emission { labels, ..emission }, registers, condition, target);
            },
            _ => {},
        },
        _ => {},
    }
}

proof fn lemma_codegen_instructions_return(
    emission: Emission,
    registers: Map<u64, Register>,
    instructions: Seq<InstructionView>,
    epilogue: MachineLabel,
    from: int,
)
    requires
        forall|i: int| !unpaired_return_value(instructions, i),
    ensures
        !lacks_return(
            spec_codegen_instructions(emission, registers, instructions, epilogue, from),
        ),
    decreases instructions.len() - from,
{
    if 0 <= from < instructions.len() {
        assert(!unpaired_return_value(instructions, from));
        lemma_codegen_instruction_return(emission, registers, instructions[from], epilogue);
        match spec_codegen_instruction(emission, registers, instructions[from], epilogue) {
            Ok(next) => {
                lemma_codegen_instructions_return(
                    next,
                    registers,
                    instructions,
                    epilogue,
                    from + 1,
                );
            },
            Err(_) => {},
        }
    }
}

proof fn lemma_allocation_return(instructions: Seq<InstructionView>, start: int)
    requires
        0 <= start,
    ensures
        !lacks_return(spec_allocation_from(instructions, start)),
    decreases instructions.len() - start,
{
    lemma_return_error_differs();
    if start < instructions.len() {
        lemma_allocation_return(instructions, start + 1);
    }
}

/// The emitter takes the returns of a block in which each instruction that
/// sets the return value is followed by one that leaves the function: it
/// does not fail for want of a return.
pub proof fn lemma_paired_returns_are_taken(block: BlockView)
    requires
        forall|i: int| !unpaired_return_value(block.instructions, i),
    ensures
        !lacks_return(spec_codegen(block)),
{
    lemma_return_error_differs();
    match spec_allocate_registers(block.instructions) {
        Ok(registers) => {
            match spec_function_prelude(block.frame.stack_slots) {
                Ok(prelude) => {
                    lemma_codegen_instructions_return(
                        initial_emission().emit_all(prelude),
                        registers,
                        block.instructions,
                        spec_epilogue_label(),
                        0,
                    );
                },
                Err(_) => {},
            }
        },
        Err(_) => {
            lemma_allocation_return(block.instructions, 0);
        },
    }
}

} // verus!
