//! The calling convention: parameter registers, stack slots and the frame.

use vstd::prelude::*;
use super::error::{CodegenError, CodegenErrorView};
use super::machine::{MachineInstruction, Program, Register};
use crate::ir::Block;

verus! {

/// The register that carries the parameter with this index, for the first
/// six parameters.
pub open spec fn spec_parameter_register(index: int) -> Option<Register> {
    if index == 0 {
        Some(Register::Rdi)
    } else if index == 1 {
        Some(Register::Rsi)
    } else if index == 2 {
        Some(Register::Rdx)
    } else if index == 3 {
        Some(Register::Rcx)
    } else if index == 4 {
        Some(Register::R8)
    } else if index == 5 {
        Some(Register::R9)
    } else {
        None
    }
}

/// The register of a parameter.  Functions of more than six parameters are
/// not implemented.
pub fn parameter_register(index: usize) -> (result: Result<Register, CodegenError>)
    ensures
        match spec_parameter_register(index as int) {
            Some(register) => result is Ok && result->Ok_0 == register,
            None => result is Err && result->Err_0@ == CodegenErrorView::NotImplemented(
                "functions with arity greater than 6"@,
            ),
        },
{
    match index {
        0 => Ok(Register::Rdi),
        1 => Ok(Register::Rsi),
        2 => Ok(Register::Rdx),
        3 => Ok(Register::Rcx),
        4 => Ok(Register::R8),
        5 => Ok(Register::R9),
        _ => Err(CodegenError::not_implemented("functions with arity greater than 6")),
    }
}

} // verus!

verus! {

pub open spec fn frame_size_error() -> CodegenErrorView {
    CodegenErrorView::NotImplemented("stack frame too large"@)
}

/// The displacement from the frame pointer of the stack slot at an offset:
/// the slot lies at `rbp - (8 + offset)`.  `None` when the displacement does
/// not fit an instruction.
pub open spec fn spec_stack_variable(offset: usize) -> Option<i32> {
    if offset <= 0x7FFF_FFF8 {
        Some((-(8 + offset)) as i32)
    } else {
        None
    }
}

/// The displacement from the frame pointer of a stack slot.
pub fn stack_variable(offset: usize) -> (result: Result<i32, CodegenError>)
    ensures
        match spec_stack_variable(offset) {
            Some(displacement) => result is Ok && result->Ok_0 == displacement,
            None => result is Err && result->Err_0@ == frame_size_error(),
        },
{
    if offset <= 0x7FFF_FFF8 {
        let distance: i64 = 8 + offset as i64;
        Ok((-distance) as i32)
    } else {
        Err(CodegenError::not_implemented("stack frame too large"))
    }
}

} // verus!

verus! {

/// The instructions that set up the frame of a function with this many
/// stack slots; none when it has no stack slots.
pub open spec fn spec_function_prelude(stack_slots: usize) -> Result<
    Seq<MachineInstruction>,
    CodegenErrorView,
> {
    if stack_slots == 0 {
        Ok(seq![])
    } else if stack_slots <= 0x0FFF_FFFF {
        Ok(
            seq![
                MachineInstruction::Push(Register::Rbp),
                MachineInstruction::Move(Register::Rbp, Register::Rsp),
                MachineInstruction::SubtractImmediate(Register::Rsp, (8 * stack_slots) as i32),
            ],
        )
    } else {
        Err(frame_size_error())
    }
}

/// The instructions that take the frame down and return.
pub open spec fn spec_function_epilogue(stack_slots: usize) -> Seq<MachineInstruction> {
    if stack_slots == 0 {
        seq![MachineInstruction::Ret]
    } else {
        seq![
            MachineInstruction::Move(Register::Rsp, Register::Rbp),
            MachineInstruction::Pop(Register::Rbp),
            MachineInstruction::Ret,
        ]
    }
}

/// Emits the code that sets up the frame, if the block has stack slots.
pub fn emit_function_prelude(assembler: &mut Program, block: &Block) -> (result: Result<
    (),
    CodegenError,
>)
    ensures
        final(assembler)@.strings == old(assembler)@.strings,
        match spec_function_prelude(block@.frame.stack_slots) {
            Err(error) => result is Err && result->Err_0@ == error,
            Ok(instructions) => result is Ok && final(assembler)@.instructions == old(
                assembler,
            )@.instructions + instructions,
        },
{
    if block.requires_stack_frame() {
        let stack_slots = block.stack_slots();
        if stack_slots > 0x0FFF_FFFF {
            return Err(CodegenError::not_implemented("stack frame too large"));
        }
        let stack_size_bytes = stack_slots * 8;
        assembler.emit(MachineInstruction::Push(Register::Rbp));
        assembler.emit(MachineInstruction::Move(Register::Rbp, Register::Rsp));
        assembler.emit(
            MachineInstruction::SubtractImmediate(Register::Rsp, stack_size_bytes as i32),
        );
        assert(final(assembler)@.instructions =~= old(assembler)@.instructions
            + spec_function_prelude(stack_slots)->Ok_0);
    } else {
        assert(assembler@.instructions + Seq::<MachineInstruction>::empty()
            =~= assembler@.instructions);
    }
    Ok(())
}

/// Emits the code that takes the frame down, if there is one, and returns.
pub fn emit_function_epilogue(assembler: &mut Program, block: &Block) -> (result: Result<
    (),
    CodegenError,
>)
    ensures
        result is Ok,
        final(assembler)@.strings == old(assembler)@.strings,
        final(assembler)@.instructions == old(assembler)@.instructions + spec_function_epilogue(
            block@.frame.stack_slots,
        ),
{
    if block.requires_stack_frame() {
        assembler.emit(MachineInstruction::Move(Register::Rsp, Register::Rbp));
        assembler.emit(MachineInstruction::Pop(Register::Rbp));
    }
    assembler.emit(MachineInstruction::Ret);
    assert(final(assembler)@.instructions =~= old(assembler)@.instructions
        + spec_function_epilogue(block@.frame.stack_slots));
    Ok(())
}

} // verus!
