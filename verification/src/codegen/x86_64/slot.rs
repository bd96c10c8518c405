use std::collections::HashMap;
use vstd::prelude::*;
use super::abi::{parameter_register, spec_parameter_register, spec_stack_variable, stack_variable};
use super::codegen_state::{emission, CodegenState, Emission};
use super::error::{CodegenError, CodegenErrorView};
use super::machine::{MachineInstruction, Program, Register};
use crate::ir::Slot;
use crate::value::{EncodedValue, RawValue, ValueEncodeError};

verus! {

broadcast use vstd::std_specs::hash::group_hash_axioms;

/// A constant of the program.  A string is named by its index among the
/// program's strings.
#[derive(Clone, Copy, Debug, PartialEq, Eq, Structural)]
pub enum Constant {
    Integer(i64),
    Boolean(bool),
    String(usize),
}

/// Where the value of a slot is to be found.
#[derive(Clone, Copy, Debug, PartialEq, Eq, Structural)]
pub enum SlotValue {
    /// Nowhere yet: the constant is loaded where it is used.
    Literal(Constant),
    /// In the register of the parameter with this index.
    FunctionArgument(usize),
    /// In this register.
    Register(Register),
    /// In the stack slot at this offset: it is loaded where it is used.
    StackOffset(usize),
    /// In the register that the allocator gave to the join.
    Phi,
}

pub open spec fn missing_value_error() -> CodegenErrorView {
    CodegenErrorView::InternalError("slot has no value"@)
}

pub open spec fn missing_register_error() -> CodegenErrorView {
    CodegenErrorView::InternalError("no register mapped for slot"@)
}

/// The instruction that loads a constant into a register, or the error that
/// encoding the constant gives.
pub open spec fn spec_load_constant(constant: Constant, register: Register) -> Result<
    MachineInstruction,
    CodegenErrorView,
> {
    match constant {
        Constant::Integer(n) => if RawValue::Integer(n).encodable() {
            Ok(MachineInstruction::MoveImmediate(register, RawValue::Integer(n).encoding() as u64))
        } else {
            Err(CodegenErrorView::ValueEncodeError(ValueEncodeError::Overflow))
        },
        Constant::Boolean(b) => Ok(
            MachineInstruction::MoveImmediate(register, RawValue::Boolean(b).encoding() as u64),
        ),
        Constant::String(index) => Ok(MachineInstruction::MoveString(register, index)),
    }
}

/// Whether a constant can be encoded.
pub open spec fn constant_encodable(constant: Constant) -> bool {
    match constant {
        Constant::Integer(n) => RawValue::Integer(n).encodable(),
        _ => true,
    }
}

/// The register that holds the slot's value once the instructions in the
/// first component have run.
///
/// A value that is a constant or lives on the stack is loaded into the
/// register that the allocator assigned to the slot.  A slot that no
/// instruction defined, and a slot that needs a register and has none, are
/// internal errors.
pub open spec fn spec_slot_to_register(
    slot_values: Map<u64, SlotValue>,
    registers: Map<u64, Register>,
    slot: Slot,
) -> Result<(Seq<MachineInstruction>, Register), CodegenErrorView> {
    if !slot_values.contains_key(slot.0) {
        Err(missing_value_error())
    } else {
        match slot_values[slot.0] {
            SlotValue::Register(register) => Ok((seq![], register)),
            SlotValue::Literal(constant) => if !constant_encodable(constant) {
                Err(CodegenErrorView::ValueEncodeError(ValueEncodeError::Overflow))
            } else if !registers.contains_key(slot.0) {
                Err(missing_register_error())
            } else {
                Ok(
                    (
                        seq![spec_load_constant(constant, registers[slot.0])->Ok_0],
                        registers[slot.0],
                    ),
                )
            },
            SlotValue::FunctionArgument(index) => match spec_parameter_register(index as int) {
                Some(register) => Ok((seq![], register)),
                None => Err(super::allocation::arity_error()),
            },
            SlotValue::StackOffset(offset) => if !registers.contains_key(slot.0) {
                Err(missing_register_error())
            } else {
                match spec_stack_variable(offset) {
                    Some(displacement) => Ok(
                        (
                            seq![MachineInstruction::Load(registers[slot.0], displacement)],
                            registers[slot.0],
                        ),
                    ),
                    None => Err(super::abi::frame_size_error()),
                }
            },
            SlotValue::Phi => if !registers.contains_key(slot.0) {
                Err(missing_register_error())
            } else {
                Ok((seq![], registers[slot.0]))
            },
        }
    }
}

/// The emission after the slot's value was brought into a register, and
/// that register.
pub open spec fn spec_emit_slot(
    emission: Emission,
    registers: Map<u64, Register>,
    slot: Slot,
) -> Result<(Emission, Register), CodegenErrorView> {
    match spec_slot_to_register(emission.slot_values, registers, slot) {
        Err(error) => Err(error),
        Ok((instructions, register)) => Ok((emission.emit_all(instructions), register)),
    }
}

/// Encodes a constant and emits the instruction that loads it.
fn load_constant(assembler: &mut Program, constant: Constant, register: Register) -> (result: Result<
    (),
    CodegenError,
>)
    ensures
        match spec_load_constant(constant, register) {
            Err(error) => result is Err && result->Err_0@ == error && final(assembler)@ == old(
                assembler,
            )@,
            Ok(instruction) => result is Ok && final(assembler)@.instructions == old(
                assembler,
            )@.instructions.push(instruction) && final(assembler)@.strings == old(
                assembler,
            )@.strings,
        },
{
    match constant {
        Constant::Integer(n) => {
            let raw = RawValue::Integer(n);
            match EncodedValue::encode(&raw) {
                Ok(value) => {
                    assembler.emit(MachineInstruction::MoveImmediate(register, value.encoded_value()));
                    Ok(())
                },
                Err(error) => Err(CodegenError::ValueEncodeError(error)),
            }
        },
        Constant::Boolean(b) => {
            let raw = RawValue::Boolean(b);
            match EncodedValue::encode(&raw) {
                Ok(value) => {
                    assembler.emit(MachineInstruction::MoveImmediate(register, value.encoded_value()));
                    Ok(())
                },
                Err(error) => Err(CodegenError::ValueEncodeError(error)),
            }
        },
        Constant::String(index) => {
            assembler.emit(MachineInstruction::MoveString(register, index));
            Ok(())
        },
    }
}

/// Whether encoding a constant succeeds.
fn check_constant(constant: Constant) -> (result: Result<(), CodegenError>)
    ensures
        constant_encodable(constant) ==> result is Ok,
        !constant_encodable(constant) ==> result is Err && result->Err_0@
            == CodegenErrorView::ValueEncodeError(ValueEncodeError::Overflow),
{
    match constant {
        Constant::Integer(n) => {
            let raw = RawValue::Integer(n);
            match EncodedValue::encode(&raw) {
                Ok(_) => Ok(()),
                Err(error) => Err(CodegenError::ValueEncodeError(error)),
            }
        },
        _ => Ok(()),
    }
}

/// The register that the allocator assigned to a slot.
fn mapped_register(register_map: &HashMap<u64, Register>, slot: &Slot) -> (result: Result<
    Register,
    CodegenError,
>)
    ensures
        register_map@.contains_key(slot.0) ==> result is Ok && result->Ok_0 == register_map@[slot.0],
        !register_map@.contains_key(slot.0) ==> result is Err && result->Err_0@
            == missing_register_error(),
{
    match register_map.get(&slot.0) {
        Some(register) => Ok(*register),
        None => Err(CodegenError::internal_error("no register mapped for slot")),
    }
}

/// Brings the value of a slot into a register, and returns the register.
/// Where that fails, nothing is emitted.
pub fn slot_to_register(
    state: &CodegenState,
    register_map: &HashMap<u64, Register>,
    assembler: &mut Program,
    slot: &Slot,
) -> (result: Result<Register, CodegenError>)
    ensures
        match spec_emit_slot(emission(*state, *old(assembler)), register_map@, *slot) {
            Err(error) => result is Err && result->Err_0@ == error,
            Ok((emitted, register)) => result is Ok && result->Ok_0 == register && emission(
                *state,
                *final(assembler),
            ) == emitted,
        },
        result is Err ==> final(assembler)@ == old(assembler)@,
{
    let slot_value = state.slot_values.get(&slot.0);
    match slot_value {
        Some(SlotValue::Register(register)) => {
            assert(assembler@.instructions + Seq::<MachineInstruction>::empty()
                =~= assembler@.instructions);
            Ok(*register)
        },
        Some(SlotValue::Literal(constant)) => {
            check_constant(*constant)?;
            let register = mapped_register(register_map, slot)?;
            load_constant(assembler, *constant, register)?;
            assert(old(assembler)@.instructions + seq![
                spec_load_constant(*constant, register)->Ok_0,
            ] =~= final(assembler)@.instructions);
            Ok(register)
        },
        Some(SlotValue::FunctionArgument(index)) => {
            let register = parameter_register(*index)?;
            assert(assembler@.instructions + Seq::<MachineInstruction>::empty()
                =~= assembler@.instructions);
            Ok(register)
        },
        Some(SlotValue::StackOffset(offset)) => {
            let register = mapped_register(register_map, slot)?;
            let displacement = stack_variable(*offset)?;
            assembler.emit(MachineInstruction::Load(register, displacement));
            assert(old(assembler)@.instructions + seq![
                MachineInstruction::Load(register, displacement),
            ] =~= final(assembler)@.instructions);
            Ok(register)
        },
        Some(SlotValue::Phi) => {
            let register = mapped_register(register_map, slot)?;
            assert(assembler@.instructions + Seq::<MachineInstruction>::empty()
                =~= assembler@.instructions);
            Ok(register)
        },
        None => Err(CodegenError::internal_error("slot has no value")),
    }
}

} // verus!
