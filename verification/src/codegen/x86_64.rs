//! The x86-64 backend: register allocation, instruction selection and
//! encoding.

pub mod abi;
pub mod allocation;
pub mod codegen_state;
pub mod encoder;
pub mod error;
pub mod instruction;
pub mod laws;
pub mod machine;
pub mod register_allocation;
pub mod slot;

use vstd::prelude::*;

use self::abi::{
    emit_function_epilogue, emit_function_prelude, spec_function_epilogue, spec_function_prelude,
};
use self::allocation::{allocate_registers, spec_allocate_registers};
use self::codegen_state::{emission, epilogue_label, spec_epilogue_label, CodegenState, Emission};
use self::error::{CodegenError, CodegenErrorView};
use self::instruction::{codegen_instruction, spec_codegen_instruction};
use self::machine::{MachineLabel, MachineInstruction, Program, ProgramView, Register};
use crate::ir::block::BlockView;
use crate::ir::instruction::{instruction_views, InstructionView};
use crate::ir::opcode::OpcodeView;
use crate::ir::{Block, Instruction, Opcode};

verus! {

pub open spec fn return_pair_error() -> CodegenErrorView {
    CodegenErrorView::InternalError("return value without a return"@)
}

/// Whether the instruction sets the return value.
pub open spec fn sets_return_value(instruction: InstructionView) -> bool {
    instruction matches InstructionView::Opcode { opcode: OpcodeView::SetReturnValue(_), .. }
}

/// Whether the instruction leaves the function.
pub open spec fn leaves_function(instruction: InstructionView) -> bool {
    instruction matches InstructionView::Opcode { opcode: OpcodeView::Return, .. }
}

/// Whether the instruction at an index sets the return value and the next
/// instruction does not leave the function.
pub open spec fn unpaired_return_value(instructions: Seq<InstructionView>, index: int) -> bool {
    &&& 0 <= index < instructions.len()
    &&& sets_return_value(instructions[index])
    &&& !(index + 1 < instructions.len() && leaves_function(instructions[index + 1]))
}

/// The emission after the instructions from index `from` on were emitted,
/// one after the other.  The return value is set only right before the
/// function is left: anything else is an internal error.
pub open spec fn spec_codegen_instructions(
    emission: Emission,
    registers: Map<u64, Register>,
    instructions: Seq<InstructionView>,
    epilogue: MachineLabel,
    from: int,
) -> Result<Emission, CodegenErrorView>
    decreases instructions.len() - from,
{
    if 0 <= from < instructions.len() {
        if unpaired_return_value(instructions, from) {
            Err(return_pair_error())
        } else {
            match spec_codegen_instruction(emission, registers, instructions[from], epilogue) {
                Err(error) => Err(error),
                Ok(emission) => spec_codegen_instructions(
                    emission,
                    registers,
                    instructions,
                    epilogue,
                    from + 1,
                ),
            }
        }
    } else {
        Ok(emission)
    }
}

fn instruction_sets_return_value(instruction: &Instruction) -> (result: bool)
    ensures
        result == sets_return_value(instruction@),
{
    match instruction {
        Instruction::Opcode { opcode: Opcode::SetReturnValue(_), .. } => true,
        _ => false,
    }
}

fn instruction_returns(instruction: &Instruction) -> (result: bool)
    ensures
        result == leaves_function(instruction@),
{
    match instruction {
        Instruction::Opcode { opcode: Opcode::Return, .. } => true,
        _ => false,
    }
}

/// The emitter's state before the first instruction.
pub open spec fn initial_emission() -> Emission {
    Emission {
        slot_values: Map::empty(),
        labels: Seq::empty(),
        instructions: Seq::empty(),
        strings: Seq::empty(),
    }
}

/// The code of a block: registers are allocated, then the prelude, the code
/// of each instruction, the epilogue label and the epilogue are emitted.
pub open spec fn spec_codegen_block(emission: Emission, block: BlockView) -> Result<
    Emission,
    CodegenErrorView,
> {
    match spec_allocate_registers(block.instructions) {
        Err(error) => Err(error),
        Ok(registers) => match spec_function_prelude(block.frame.stack_slots) {
            Err(error) => Err(error),
            Ok(prelude) => match spec_codegen_instructions(
                emission.emit_all(prelude),
                registers,
                block.instructions,
                spec_epilogue_label(),
                0,
            ) {
                Err(error) => Err(error),
                Ok(emission) => Ok(
                    emission.emit(MachineInstruction::Label(spec_epilogue_label())).emit_all(
                        spec_function_epilogue(block.frame.stack_slots),
                    ),
                ),
            },
        },
    }
}

/// The program that a block compiles to.
pub open spec fn spec_codegen(block: BlockView) -> Result<ProgramView, CodegenErrorView> {
    match spec_codegen_block(initial_emission(), block) {
        Err(error) => Err(error),
        Ok(emission) => Ok(
            ProgramView { instructions: emission.instructions, strings: emission.strings },
        ),
    }
}

/// Compiles a block to machine instructions.
///
/// The first instruction of the program is the function's entry.
pub fn codegen(block: &Block) -> (result: Result<Program, CodegenError>)
    ensures
        match spec_codegen(block@) {
            Err(error) => result is Err && result->Err_0@ == error,
            Ok(program) => result is Ok && result->Ok_0@ == program,
        },
{
    let mut state = CodegenState::new();
    let mut assembler = Program::new();
    assert(emission(state, assembler) == initial_emission());
    codegen_block(&mut state, &mut assembler, block)?;
    Ok(assembler)
}

fn codegen_block(state: &mut CodegenState, assembler: &mut Program, block: &Block) -> (result: Result<
    (),
    CodegenError,
>)
    ensures
        match spec_codegen_block(emission(*old(state), *old(assembler)), block@) {
            Err(error) => result is Err && result->Err_0@ == error,
            Ok(expected) => result is Ok && emission(*final(state), *final(assembler))
                == expected,
        },
{
    let ghost begin = emission(*state, *assembler);
    let register_map = allocate_registers(block.instructions())?;
    let epilogue_label = epilogue_label();
    emit_function_prelude(assembler, block)?;
    let instructions = block.instructions();
    let ghost views = block@.instructions;
    let ghost start = emission(*state, *assembler);
    let ghost body = spec_codegen_instructions(start, register_map@, views, epilogue_label, 0);
    assert(start == begin.emit_all(spec_function_prelude(block@.frame.stack_slots)->Ok_0));
    assert(body is Err ==> spec_codegen_block(begin, block@) == Err::<Emission, _>(body->Err_0));
    let mut index: usize = 0;
    while index < instructions.len()
        invariant
            index <= instructions.len(),
            views == instruction_views(instructions@),
            begin == emission(*old(state), *old(assembler)),
            spec_codegen_instructions(
                emission(*state, *assembler),
                register_map@,
                views,
                epilogue_label,
                index as int,
            ) == body,
            body is Err ==> spec_codegen_block(begin, block@) == Err::<Emission, _>(body->Err_0),
        decreases instructions.len() - index,
    {
        let ghost before = emission(*state, *assembler);
        if instruction_sets_return_value(&instructions[index]) && !(index + 1 < instructions.len()
            && instruction_returns(&instructions[index + 1])) {
            return Err(CodegenError::internal_error("return value without a return"));
        }
        assert(spec_codegen_instructions(before, register_map@, views, epilogue_label, index as int)
            == match spec_codegen_instruction(
            before,
            register_map@,
            views[index as int],
            epilogue_label,
        ) {
            Err(error) => Err(error),
            Ok(next) => spec_codegen_instructions(
                next,
                register_map@,
                views,
                epilogue_label,
                index + 1,
            ),
        });
        codegen_instruction(
            state,
            &register_map,
            assembler,
            &instructions[index],
            &epilogue_label,
        )?;
        index = index + 1;
    }
    assembler.emit(MachineInstruction::Label(epilogue_label));
    emit_function_epilogue(assembler, block)?;
    Ok(())
}

} // verus!
