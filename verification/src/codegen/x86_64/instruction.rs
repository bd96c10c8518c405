use std::collections::HashMap;
use vstd::prelude::*;
use super::abi::{
    parameter_register, spec_parameter_register, spec_stack_variable, stack_variable,
};
use super::allocation::arity_error;
use super::codegen_state::{emission, spec_label, CodegenState, Emission};
use super::error::{CodegenError, CodegenErrorView};
use super::machine::{BranchCondition, MachineLabel, MachineInstruction, Program, Register};
use super::slot::{slot_to_register, spec_emit_slot, Constant, SlotValue};
use crate::ir::instruction::InstructionView;
use crate::ir::opcode::OpcodeView;
use crate::ir::{AssignmentTarget, Instruction, JumpCondition, Opcode, Slot};
use crate::parser::{ArithmeticOperator, BinaryOperator};
use crate::value::{Value, ValueView};

verus! {

broadcast use vstd::std_specs::hash::group_hash_axioms;

pub open spec fn division_error() -> CodegenErrorView {
    CodegenErrorView::NotImplemented("division operator"@)
}

pub open spec fn comparison_error() -> CodegenErrorView {
    CodegenErrorView::NotImplemented("comparison operators in expressions"@)
}

/// The emission after the values of the slots from index `from` on were
/// brought into registers, one after the other.
pub open spec fn spec_emit_slots(
    emission: Emission,
    registers: Map<u64, Register>,
    slots: Seq<Slot>,
    from: int,
) -> Result<Emission, CodegenErrorView>
    decreases slots.len() - from,
{
    if 0 <= from < slots.len() {
        match spec_emit_slot(emission, registers, slots[from]) {
            Err(error) => Err(error),
            Ok((emission, _)) => spec_emit_slots(emission, registers, slots, from + 1),
        }
    } else {
        Ok(emission)
    }
}

/// A test of one slot against zero, and the branch on its outcome.  The
/// branch on zero is the branch on equality: the processor has one
/// instruction for both.
pub open spec fn spec_test_branch(
    emission: Emission,
    registers: Map<u64, Register>,
    slot: Slot,
    condition: BranchCondition,
    target: MachineLabel,
) -> Result<Emission, CodegenErrorView> {
    match spec_emit_slot(emission, registers, slot) {
        Err(error) => Err(error),
        Ok((emission, register)) => Ok(
            emission.emit(MachineInstruction::Test(register, register)).emit(
                MachineInstruction::Branch(condition, target),
            ),
        ),
    }
}

/// A comparison of two slots, and the branch on its outcome.
pub open spec fn spec_compare_branch(
    emission: Emission,
    registers: Map<u64, Register>,
    lhs: Slot,
    rhs: Slot,
    condition: BranchCondition,
    target: MachineLabel,
) -> Result<Emission, CodegenErrorView> {
    match spec_emit_slot(emission, registers, lhs) {
        Err(error) => Err(error),
        Ok((emission, lhs_register)) => match spec_emit_slot(emission, registers, rhs) {
            Err(error) => Err(error),
            Ok((emission, rhs_register)) => Ok(
                emission.emit(MachineInstruction::Compare(lhs_register, rhs_register)).emit(
                    MachineInstruction::Branch(condition, target),
                ),
            ),
        },
    }
}

/// The code of a jump to a code label.
pub open spec fn spec_jump(
    emission: Emission,
    registers: Map<u64, Register>,
    condition: JumpCondition,
    target: MachineLabel,
) -> Result<Emission, CodegenErrorView> {
    match condition {
        JumpCondition::Unconditional => Ok(emission.emit(MachineInstruction::Jump(target))),
        JumpCondition::Zero(slot) => spec_test_branch(
            emission,
            registers,
            slot,
            BranchCondition::Equal,
            target,
        ),
        JumpCondition::NotZero(slot) => spec_test_branch(
            emission,
            registers,
            slot,
            BranchCondition::NotEqual,
            target,
        ),
        JumpCondition::Equal(lhs, rhs) => spec_compare_branch(
            emission,
            registers,
            lhs,
            rhs,
            BranchCondition::Equal,
            target,
        ),
        JumpCondition::NotEqual(lhs, rhs) => spec_compare_branch(
            emission,
            registers,
            lhs,
            rhs,
            BranchCondition::NotEqual,
            target,
        ),
        JumpCondition::Greater(lhs, rhs) => spec_compare_branch(
            emission,
            registers,
            lhs,
            rhs,
            BranchCondition::Greater,
            target,
        ),
        JumpCondition::GreaterOrEqual(lhs, rhs) => spec_compare_branch(
            emission,
            registers,
            lhs,
            rhs,
            BranchCondition::GreaterOrEqual,
            target,
        ),
        JumpCondition::Less(lhs, rhs) => spec_compare_branch(
            emission,
            registers,
            lhs,
            rhs,
            BranchCondition::Less,
            target,
        ),
        JumpCondition::LessOrEqual(lhs, rhs) => spec_compare_branch(
            emission,
            registers,
            lhs,
            rhs,
            BranchCondition::LessOrEqual,
            target,
        ),
    }
}

/// The code of an arithmetic operation on two slots.  The operation
/// overwrites the register of its left operand with the result.
pub open spec fn spec_binary_operator(
    emission: Emission,
    registers: Map<u64, Register>,
    destination: Slot,
    lhs: Slot,
    operator: BinaryOperator,
    rhs: Slot,
) -> Result<Emission, CodegenErrorView> {
    match operator {
        BinaryOperator::ComparisonOperator(_) => Err(comparison_error()),
        BinaryOperator::ArithmeticOperator(operator) => match spec_emit_slot(
            emission,
            registers,
            lhs,
        ) {
            Err(error) => Err(error),
            Ok((emission, lhs_register)) => match spec_emit_slot(emission, registers, rhs) {
                Err(error) => Err(error),
                Ok((emission, rhs_register)) => match operator {
                    ArithmeticOperator::Add => Ok(
                        emission.emit(MachineInstruction::Add(lhs_register, rhs_register)).define(
                            destination.0,
                            SlotValue::Register(lhs_register),
                        ),
                    ),
                    ArithmeticOperator::Multiply => Ok(
                        emission.emit(
                            MachineInstruction::Multiply(lhs_register, rhs_register),
                        ).define(destination.0, SlotValue::Register(lhs_register)),
                    ),
                    ArithmeticOperator::Subtract => Ok(
                        emission.emit(
                            MachineInstruction::Subtract(lhs_register, rhs_register),
                        ).define(destination.0, SlotValue::Register(lhs_register)),
                    ),
                    ArithmeticOperator::Divide => Err(division_error()),
                },
            },
        },
    }
}

/// The emission after a constant was defined: the slot is bound to the
/// constant, and a string is added to the program's strings.
pub open spec fn spec_literal(emission: Emission, destination: Slot, value: ValueView) -> Emission {
    match value {
        ValueView::Integer(n) => emission.define(
            destination.0,
            SlotValue::Literal(Constant::Integer(n)),
        ),
        ValueView::Boolean(b) => emission.define(
            destination.0,
            SlotValue::Literal(Constant::Boolean(b)),
        ),
        ValueView::String(s) => Emission {
            strings: emission.strings.push(s),
            ..emission.define(
                destination.0,
                SlotValue::Literal(Constant::String(emission.strings.len() as usize)),
            )
        },
    }
}

/// The code of an assignment.
pub open spec fn spec_assign(
    emission: Emission,
    registers: Map<u64, Register>,
    target: AssignmentTarget,
    source: Slot,
) -> Result<Emission, CodegenErrorView> {
    match spec_emit_slot(emission, registers, source) {
        Err(error) => Err(error),
        Ok((emission, register)) => match target {
            AssignmentTarget::StackVariable(offset) => match spec_stack_variable(offset) {
                Some(displacement) => Ok(
                    emission.emit(MachineInstruction::Store(displacement, register)),
                ),
                None => Err(super::abi::frame_size_error()),
            },
            AssignmentTarget::FunctionArgument(index) => match spec_parameter_register(
                index as int,
            ) {
                Some(parameter) => Ok(emission.emit(MachineInstruction::Move(parameter, register))),
                None => Err(arity_error()),
            },
        },
    }
}

/// What the emitter does for one instruction.
///
/// Constants, arguments, stack variables and joins emit no code where they
/// are defined: the emitter notes where the value is.  The contribution of
/// a predecessor to a join emits no code either: it is there for the
/// allocator.  An arithmetic
/// operation works on the register of its left operand, a call leaves its
/// result in `rax`, and `Return` jumps to the epilogue.
#[verifier::opaque]
pub open spec fn spec_codegen_instruction(
    emission: Emission,
    registers: Map<u64, Register>,
    instruction: InstructionView,
    epilogue: MachineLabel,
) -> Result<Emission, CodegenErrorView> {
    match instruction {
        InstructionView::Label(label) => {
            let (labels, code_label) = spec_label(emission.labels, label);
            Ok(Emission { labels, ..emission }.emit(MachineInstruction::Label(code_label)))
        },
        InstructionView::Opcode { destination, opcode } => match opcode {
            OpcodeView::Literal(value) => Ok(spec_literal(emission, destination, value)),
            OpcodeView::BinaryOperator(lhs, operator, rhs) => spec_binary_operator(
                emission,
                registers,
                destination,
                lhs,
                operator,
                rhs,
            ),
            OpcodeView::CallFunction(address, arguments) => match spec_emit_slots(
                emission,
                registers,
                arguments,
                0,
            ) {
                Err(error) => Err(error),
                Ok(emission) => Ok(
                    emission.emit(MachineInstruction::Call(address as u64)).define(
                        destination.0,
                        SlotValue::Register(Register::Rax),
                    ),
                ),
            },
            OpcodeView::FunctionArgument(index) => Ok(
                emission.define(destination.0, SlotValue::FunctionArgument(index)),
            ),
            OpcodeView::SetReturnValue(slot) => match spec_emit_slot(emission, registers, slot) {
                Err(error) => Err(error),
                Ok((emission, register)) => if register != Register::Rax {
                    Ok(emission.emit(MachineInstruction::Move(Register::Rax, register)))
                } else {
                    Ok(emission)
                },
            },
            OpcodeView::Return => Ok(emission.emit(MachineInstruction::Jump(epilogue))),
            OpcodeView::StackVariable(offset) => Ok(
                emission.define(destination.0, SlotValue::StackOffset(offset)),
            ),
            OpcodeView::Jump(condition, label) => {
                let (labels, target) = spec_label(emission.labels, label);
                spec_jump(Emission { labels, ..emission }, registers, condition, target)
            },
            OpcodeView::PhiStart(_) => Ok(emission),
            OpcodeView::PhiEnd(_) => Ok(emission.define(destination.0, SlotValue::Phi)),
        },
        InstructionView::Assign(target, source) => spec_assign(
            emission,
            registers,
            target,
            source,
        ),
    }
}

/// Whether an exec result stands for a spec result of the emitter.
pub open spec fn emitted(
    result: Result<(), CodegenError>,
    state: CodegenState,
    program: Program,
    expected: Result<Emission, CodegenErrorView>,
) -> bool {
    match expected {
        Err(error) => result is Err && result->Err_0@ == error,
        Ok(expected) => result is Ok && emission(state, program) == expected,
    }
}

fn emit_slots(
    state: &CodegenState,
    register_map: &HashMap<u64, Register>,
    assembler: &mut Program,
    slots: &Vec<Slot>,
) -> (result: Result<(), CodegenError>)
    ensures
        emitted(
            result,
            *state,
            *final(assembler),
            spec_emit_slots(emission(*state, *old(assembler)), register_map@, slots@, 0),
        ),
{
    let mut index: usize = 0;
    while index < slots.len()
        invariant
            index <= slots.len(),
            spec_emit_slots(emission(*state, *assembler), register_map@, slots@, index as int)
                == spec_emit_slots(emission(*state, *old(assembler)), register_map@, slots@, 0),
        decreases slots.len() - index,
    {
        slot_to_register(state, register_map, assembler, &slots[index])?;
        index = index + 1;
    }
    Ok(())
}

fn emit_test_branch(
    state: &CodegenState,
    register_map: &HashMap<u64, Register>,
    assembler: &mut Program,
    slot: &Slot,
    condition: BranchCondition,
    target: MachineLabel,
) -> (result: Result<(), CodegenError>)
    ensures
        emitted(
            result,
            *state,
            *final(assembler),
            spec_test_branch(
                emission(*state, *old(assembler)),
                register_map@,
                *slot,
                condition,
                target,
            ),
        ),
{
    let register = slot_to_register(state, register_map, assembler, slot)?;
    assembler.emit(MachineInstruction::Test(register, register));
    assembler.emit(MachineInstruction::Branch(condition, target));
    Ok(())
}

fn emit_compare_branch(
    state: &CodegenState,
    register_map: &HashMap<u64, Register>,
    assembler: &mut Program,
    lhs: &Slot,
    rhs: &Slot,
    condition: BranchCondition,
    target: MachineLabel,
) -> (result: Result<(), CodegenError>)
    ensures
        emitted(
            result,
            *state,
            *final(assembler),
            spec_compare_branch(
                emission(*state, *old(assembler)),
                register_map@,
                *lhs,
                *rhs,
                condition,
                target,
            ),
        ),
{
    let lhs_register = slot_to_register(state, register_map, assembler, lhs)?;
    let rhs_register = slot_to_register(state, register_map, assembler, rhs)?;
    assembler.emit(MachineInstruction::Compare(lhs_register, rhs_register));
    assembler.emit(MachineInstruction::Branch(condition, target));
    Ok(())
}

fn emit_jump(
    state: &CodegenState,
    register_map: &HashMap<u64, Register>,
    assembler: &mut Program,
    condition: &JumpCondition,
    target: MachineLabel,
) -> (result: Result<(), CodegenError>)
    ensures
        emitted(
            result,
            *state,
            *final(assembler),
            spec_jump(emission(*state, *old(assembler)), register_map@, *condition, target),
        ),
{
    match condition {
        JumpCondition::Unconditional => {
            assembler.emit(MachineInstruction::Jump(target));
            Ok(())
        },
        JumpCondition::Zero(slot) => emit_test_branch(
            state,
            register_map,
            assembler,
            slot,
            BranchCondition::Equal,
            target,
        ),
        JumpCondition::NotZero(slot) => emit_test_branch(
            state,
            register_map,
            assembler,
            slot,
            BranchCondition::NotEqual,
            target,
        ),
        JumpCondition::Equal(lhs, rhs) => emit_compare_branch(
            state,
            register_map,
            assembler,
            lhs,
            rhs,
            BranchCondition::Equal,
            target,
        ),
        JumpCondition::NotEqual(lhs, rhs) => emit_compare_branch(
            state,
            register_map,
            assembler,
            lhs,
            rhs,
            BranchCondition::NotEqual,
            target,
        ),
        JumpCondition::Greater(lhs, rhs) => emit_compare_branch(
            state,
            register_map,
            assembler,
            lhs,
            rhs,
            BranchCondition::Greater,
            target,
        ),
        JumpCondition::GreaterOrEqual(lhs, rhs) => emit_compare_branch(
            state,
            register_map,
            assembler,
            lhs,
            rhs,
            BranchCondition::GreaterOrEqual,
            target,
        ),
        JumpCondition::Less(lhs, rhs) => emit_compare_branch(
            state,
            register_map,
            assembler,
            lhs,
            rhs,
            BranchCondition::Less,
            target,
        ),
        JumpCondition::LessOrEqual(lhs, rhs) => emit_compare_branch(
            state,
            register_map,
            assembler,
            lhs,
            rhs,
            BranchCondition::LessOrEqual,
            target,
        ),
    }
}

fn emit_literal(state: &mut CodegenState, assembler: &mut Program, destination: &Slot, value: &Value)
    ensures
        emission(*final(state), *final(assembler)) == spec_literal(
            emission(*old(state), *old(assembler)),
            *destination,
            value@,
        ),
{
    match value {
        Value::Integer(n) => {
            state.slot_values.insert(destination.0, SlotValue::Literal(Constant::Integer(*n)));
        },
        Value::Boolean(b) => {
            state.slot_values.insert(destination.0, SlotValue::Literal(Constant::Boolean(*b)));
        },
        Value::String(s) => {
            let index = assembler.add_string(s.clone());
            state.slot_values.insert(destination.0, SlotValue::Literal(Constant::String(index)));
        },
    }
}

/// Emits the code of one instruction.
pub fn codegen_instruction(
    state: &mut CodegenState,
    register_map: &HashMap<u64, Register>,
    assembler: &mut Program,
    instruction: &Instruction,
    epilogue_label: &MachineLabel,
) -> (result: Result<(), CodegenError>)
    ensures
        emitted(
            result,
            *final(state),
            *final(assembler),
            spec_codegen_instruction(
                emission(*old(state), *old(assembler)),
                register_map@,
                instruction@,
                *epilogue_label,
            ),
        ),
{
    reveal(spec_codegen_instruction);
    match instruction {
        Instruction::Label(label) => {
            let label = state.label(label);
            assembler.emit(MachineInstruction::Label(label));
        },
        Instruction::Opcode { destination, opcode } => {
            match opcode {
                Opcode::Literal(literal) => {
                    emit_literal(state, assembler, destination, literal);
                },
                Opcode::BinaryOperator(lhs, BinaryOperator::ArithmeticOperator(op), rhs) => {
                    let lhs = slot_to_register(state, register_map, assembler, lhs)?;
                    let rhs = slot_to_register(state, register_map, assembler, rhs)?;
                    match op {
                        ArithmeticOperator::Add => {
                            assembler.emit(MachineInstruction::Add(lhs, rhs));
                        },
                        ArithmeticOperator::Multiply => {
                            assembler.emit(MachineInstruction::Multiply(lhs, rhs));
                        },
                        ArithmeticOperator::Subtract => {
                            assembler.emit(MachineInstruction::Subtract(lhs, rhs));
                        },
                        ArithmeticOperator::Divide => {
                            return Err(CodegenError::not_implemented("division operator"));
                        },
                    }
                    state.slot_values.insert(destination.0, SlotValue::Register(lhs));
                },
                Opcode::BinaryOperator(_lhs, BinaryOperator::ComparisonOperator(_op), _rhs) => {
                    return Err(
                        CodegenError::not_implemented("comparison operators in expressions"),
                    );
                },
                Opcode::CallFunction(address, args) => {
                    emit_slots(state, register_map, assembler, args)?;
                    assembler.emit(MachineInstruction::Call(*address as u64));
                    state.slot_values.insert(destination.0, SlotValue::Register(Register::Rax));
                },
                Opcode::FunctionArgument(index) => {
                    state.slot_values.insert(destination.0, SlotValue::FunctionArgument(*index));
                },
                Opcode::SetReturnValue(slot) => {
                    let value = slot_to_register(state, register_map, assembler, slot)?;
                    if value != Register::Rax {
                        assembler.emit(MachineInstruction::Move(Register::Rax, value));
                    }
                },
                Opcode::Return => {
                    assembler.emit(MachineInstruction::Jump(*epilogue_label));
                },
                Opcode::StackVariable(offset) => {
                    state.slot_values.insert(destination.0, SlotValue::StackOffset(*offset));
                },
                Opcode::Jump(condition, label) => {
                    let label = state.label(label);
                    emit_jump(state, register_map, assembler, condition, label)?;
                },
                Opcode::PhiStart(_slot) => {},
                Opcode::PhiEnd(_slots) => {
                    state.slot_values.insert(destination.0, SlotValue::Phi);
                },
            };
        },
        Instruction::Assign(target, rhs) => {
            let value = slot_to_register(state, register_map, assembler, rhs)?;
            match target {
                AssignmentTarget::StackVariable(offset) => {
                    let displacement = stack_variable(*offset)?;
                    assembler.emit(MachineInstruction::Store(displacement, value));
                },
                AssignmentTarget::FunctionArgument(index) => {
                    let parameter = parameter_register(*index)?;
                    assembler.emit(MachineInstruction::Move(parameter, value));
                },
            }
        },
    }
    Ok(())
}

} // verus!
