//! Register allocation: one backward walk over the instructions.
//!
//! Each use of a slot forces or draws a register for it, and the allocator
//! lets the instruction that defines a constant or reads a variable give its
//! register back.  The operand-destroying form of the arithmetic
//! instructions, the argument registers of a call, the return register and
//! the joins are expressed as forced assignments, so that the emitter needs
//! no moves for them.

use std::collections::HashMap;
use vstd::prelude::*;
use super::abi::{parameter_register, spec_parameter_register};
use super::error::{CodegenError, CodegenErrorView};
use super::machine::Register;
use crate::ir::instruction::{instruction_views, InstructionView};
use crate::ir::opcode::OpcodeView;
use crate::ir::{Instruction, JumpCondition, Opcode, Slot};

verus! {

broadcast use vstd::std_specs::hash::group_hash_axioms;

/// The allocator's state: the register of each slot met so far, by the
/// slot's number, and the registers that are free, the next to hand out
/// last.
pub struct Allocation {
    pub registers: Map<u64, Register>,
    pub free: Seq<Register>,
}

/// The state before any instruction is looked at: the scratch registers that
/// no calling convention role claims are free.
pub open spec fn initial_allocation() -> Allocation {
    Allocation {
        registers: Map::empty(),
        free: seq![Register::R8, Register::R9, Register::R10, Register::R11],
    }
}

/// Gives the slot the register unless it has one.
pub open spec fn spec_assign_register(
    state: Allocation,
    slot: Slot,
    register: Register,
) -> Allocation {
    if state.registers.contains_key(slot.0) {
        state
    } else {
        Allocation { registers: state.registers.insert(slot.0, register), free: state.free }
    }
}

/// The slot's register if it has one, else the free register handed out
/// next, which the slot then owns.  `None` when a register is needed and
/// none is free.
pub open spec fn spec_choose_register(state: Allocation, slot: Slot) -> Option<
    (Allocation, Register),
> {
    if state.registers.contains_key(slot.0) {
        Some((state, state.registers[slot.0]))
    } else if state.free.len() == 0 {
        None
    } else {
        Some(
            (
                Allocation {
                    registers: state.registers.insert(slot.0, state.free.last()),
                    free: state.free.drop_last(),
                },
                state.free.last(),
            ),
        )
    }
}

/// Frees the slot's register, if the slot has one and it is not free yet.
pub open spec fn spec_release_register(state: Allocation, slot: Slot) -> Allocation {
    if state.registers.contains_key(slot.0) && !state.free.contains(state.registers[slot.0]) {
        Allocation {
            registers: state.registers,
            free: state.free.push(state.registers[slot.0]),
        }
    } else {
        state
    }
}

/// Forces the arguments from index `from` on into their parameter registers.
pub open spec fn spec_assign_arguments(
    state: Allocation,
    arguments: Seq<Slot>,
    from: int,
) -> Allocation
    decreases arguments.len() - from,
{
    if 0 <= from < arguments.len() {
        match spec_parameter_register(from) {
            Some(register) => spec_assign_arguments(
                spec_assign_register(state, arguments[from], register),
                arguments,
                from + 1,
            ),
            None => state,
        }
    } else {
        state
    }
}

/// Forces the slots from index `from` on into one register.
pub open spec fn spec_assign_all(
    state: Allocation,
    slots: Seq<Slot>,
    register: Register,
    from: int,
) -> Allocation
    decreases slots.len() - from,
{
    if 0 <= from < slots.len() {
        spec_assign_all(
            spec_assign_register(state, slots[from], register),
            slots,
            register,
            from + 1,
        )
    } else {
        state
    }
}

pub open spec fn spilling_error() -> CodegenErrorView {
    CodegenErrorView::NotImplemented("register spilling"@)
}

pub open spec fn arity_error() -> CodegenErrorView {
    CodegenErrorView::NotImplemented("functions with arity greater than 6"@)
}

pub open spec fn destination_error() -> CodegenErrorView {
    CodegenErrorView::InternalError("destination register not yet set"@)
}

/// Draws registers for two slots, one after the other.
pub open spec fn spec_choose_two(state: Allocation, first: Slot, second: Slot) -> Result<
    Allocation,
    CodegenErrorView,
> {
    match spec_choose_register(state, first) {
        None => Err(spilling_error()),
        Some((state, _)) => match spec_choose_register(state, second) {
            None => Err(spilling_error()),
            Some((state, _)) => Ok(state),
        },
    }
}

/// Draws a register for one slot.
pub open spec fn spec_choose_one(state: Allocation, slot: Slot) -> Result<
    Allocation,
    CodegenErrorView,
> {
    match spec_choose_register(state, slot) {
        None => Err(spilling_error()),
        Some((state, _)) => Ok(state),
    }
}

/// What one instruction does to the allocator's state.
pub open spec fn spec_allocate_instruction(state: Allocation, instruction: InstructionView) -> Result<
    Allocation,
    CodegenErrorView,
> {
    match instruction {
        InstructionView::Label(_) => Ok(state),
        InstructionView::Assign(_, slot) => spec_choose_one(state, slot),
        InstructionView::Opcode { destination, opcode } => match opcode {
            OpcodeView::Return => Ok(state),
            OpcodeView::Jump(condition, _) => match condition {
                JumpCondition::Unconditional => Ok(state),
                JumpCondition::Zero(slot) | JumpCondition::NotZero(slot) => spec_choose_one(
                    state,
                    slot,
                ),
                JumpCondition::Equal(lhs, rhs)
                | JumpCondition::NotEqual(lhs, rhs)
                | JumpCondition::Less(lhs, rhs)
                | JumpCondition::Greater(lhs, rhs)
                | JumpCondition::LessOrEqual(lhs, rhs)
                | JumpCondition::GreaterOrEqual(lhs, rhs) => spec_choose_two(state, lhs, rhs),
            },
            OpcodeView::SetReturnValue(slot) => Ok(
                spec_assign_register(state, slot, Register::Rax),
            ),
            OpcodeView::Literal(_)
            | OpcodeView::FunctionArgument(_)
            | OpcodeView::StackVariable(_) => Ok(spec_release_register(state, destination)),
            OpcodeView::CallFunction(_, arguments) => if arguments.len() > 6 {
                Err(arity_error())
            } else {
                Ok(spec_assign_arguments(state, arguments, 0))
            },
            OpcodeView::BinaryOperator(lhs, _, rhs) => if !state.registers.contains_key(
                destination.0,
            ) {
                Err(destination_error())
            } else {
                spec_choose_one(
                    spec_assign_register(state, lhs, state.registers[destination.0]),
                    rhs,
                )
            },
            OpcodeView::PhiStart(slot) => if !state.registers.contains_key(destination.0) {
                Err(destination_error())
            } else {
                Ok(spec_assign_register(state, slot, state.registers[destination.0]))
            },
            OpcodeView::PhiEnd(slots) => match spec_choose_register(state, destination) {
                None => Err(spilling_error()),
                Some((state, register)) => Ok(spec_assign_all(state, slots, register, 0)),
            },
        },
    }
}

/// The state after the walk has looked at the instructions from the last
/// back to the one at index `start`.
pub open spec fn spec_allocation_from(instructions: Seq<InstructionView>, start: int) -> Result<
    Allocation,
    CodegenErrorView,
>
    decreases instructions.len() - start,
{
    if 0 <= start < instructions.len() {
        match spec_allocation_from(instructions, start + 1) {
            Err(error) => Err(error),
            Ok(state) => spec_allocate_instruction(state, instructions[start]),
        }
    } else {
        Ok(initial_allocation())
    }
}

/// The register of each slot after the whole walk.
pub open spec fn spec_allocate_registers(instructions: Seq<InstructionView>) -> Result<
    Map<u64, Register>,
    CodegenErrorView,
> {
    match spec_allocation_from(instructions, 0) {
        Err(error) => Err(error),
        Ok(state) => Ok(state.registers),
    }
}

/// An error met during the walk is the result of the whole walk.
pub proof fn lemma_allocation_error_persists(
    instructions: Seq<InstructionView>,
    start: int,
    earlier: int,
)
    requires
        0 <= earlier <= start <= instructions.len(),
        spec_allocation_from(instructions, start) is Err,
    ensures
        spec_allocation_from(instructions, earlier) == spec_allocation_from(instructions, start),
    decreases start - earlier,
{
    if earlier < start {
        lemma_allocation_error_persists(instructions, start, earlier + 1);
    }
}

/// Whether every slot with a register in `before` has one in `after`.
pub open spec fn keeps_slots(before: Map<u64, Register>, after: Map<u64, Register>) -> bool {
    forall|key: u64| #![trigger before.contains_key(key)] before.contains_key(key) ==> after.contains_key(key)
}

/// Whether each of the slots from index `from` on has a register.
pub open spec fn has_registers(registers: Map<u64, Register>, slots: Seq<Slot>, from: int) -> bool {
    forall|i: int| from <= i < slots.len() ==> registers.contains_key(#[trigger] slots[i].0)
}

/// Forcing the arguments into their registers keeps every register that was
/// assigned and leaves each of the arguments with one.
proof fn lemma_assign_arguments_covers(state: Allocation, arguments: Seq<Slot>, from: int)
    requires
        0 <= from,
        arguments.len() <= 6,
    ensures
        keeps_slots(state.registers, spec_assign_arguments(state, arguments, from).registers),
        has_registers(spec_assign_arguments(state, arguments, from).registers, arguments, from),
    decreases arguments.len() - from,
{
    if from < arguments.len() {
        let register = spec_parameter_register(from)->0;
        let next = spec_assign_register(state, arguments[from], register);
        lemma_assign_arguments_covers(next, arguments, from + 1);
        let last = spec_assign_arguments(state, arguments, from);
        assert(last == spec_assign_arguments(next, arguments, from + 1));
        assert(next.registers.contains_key(arguments[from].0));
        assert forall|key: u64| state.registers.contains_key(key) implies last.registers.contains_key(
            key,
        ) by {
            assert(next.registers.contains_key(key));
        }
        assert forall|i: int| from <= i < arguments.len() implies last.registers.contains_key(
            #[trigger] arguments[i].0,
        ) by {
            if i == from {
            } else {
                assert(from + 1 <= i);
            }
        }
    }
}

/// Forcing the slots into one register keeps every register that was
/// assigned and leaves each of the slots with one.
proof fn lemma_assign_all_covers(state: Allocation, slots: Seq<Slot>, register: Register, from: int)
    requires
        0 <= from,
    ensures
        keeps_slots(state.registers, spec_assign_all(state, slots, register, from).registers),
        has_registers(spec_assign_all(state, slots, register, from).registers, slots, from),
    decreases slots.len() - from,
{
    if from < slots.len() {
        let next = spec_assign_register(state, slots[from], register);
        lemma_assign_all_covers(next, slots, register, from + 1);
        let last = spec_assign_all(state, slots, register, from);
        assert(last == spec_assign_all(next, slots, register, from + 1));
        assert(next.registers.contains_key(slots[from].0));
        assert forall|key: u64| state.registers.contains_key(key) implies last.registers.contains_key(
            key,
        ) by {
            assert(next.registers.contains_key(key));
        }
        assert forall|i: int| from <= i < slots.len() implies last.registers.contains_key(
            #[trigger] slots[i].0,
        ) by {
            if i == from {
            } else {
                assert(from + 1 <= i);
            }
        }
    }
}

/// One step of the walk keeps every register that was assigned and leaves
/// each slot that the instruction reads with one.
pub proof fn lemma_allocate_instruction_covers(state: Allocation, instruction: InstructionView)
    requires
        spec_allocate_instruction(state, instruction) is Ok,
    ensures
        keeps_slots(
            state.registers,
            spec_allocate_instruction(state, instruction)->Ok_0.registers,
        ),
        has_registers(
            spec_allocate_instruction(state, instruction)->Ok_0.registers,
            instruction.inputs(),
            0,
        ),
{
    match instruction {
        InstructionView::Opcode { destination, opcode } => match opcode {
            OpcodeView::CallFunction(_, arguments) => {
                lemma_assign_arguments_covers(state, arguments, 0);
            },
            OpcodeView::PhiEnd(slots) => {
                let (chosen, register) = spec_choose_register(state, destination)->0;
                lemma_assign_all_covers(chosen, slots, register, 0);
                let last = spec_assign_all(chosen, slots, register, 0);
                assert forall|key: u64|
                    state.registers.contains_key(key) implies last.registers.contains_key(key) by {
                    assert(chosen.registers.contains_key(key));
                }
            },
            _ => {},
        },
        _ => {},
    }
}

/// Every slot that an instruction reads has a register once the walk has
/// passed the instruction.
pub proof fn lemma_allocation_covers_inputs(instructions: Seq<InstructionView>, start: int)
    requires
        0 <= start,
        spec_allocation_from(instructions, start) is Ok,
    ensures
        forall|i: int|
            start <= i < instructions.len() ==> has_registers(
                spec_allocation_from(instructions, start)->Ok_0.registers,
                (#[trigger] instructions[i]).inputs(),
                0,
            ),
    decreases instructions.len() - start,
{
    if start < instructions.len() {
        let later = spec_allocation_from(instructions, start + 1)->Ok_0;
        lemma_allocation_covers_inputs(instructions, start + 1);
        lemma_allocate_instruction_covers(later, instructions[start]);
        let now = spec_allocation_from(instructions, start)->Ok_0;
        assert forall|i: int| start <= i < instructions.len() implies has_registers(
            now.registers,
            (#[trigger] instructions[i]).inputs(),
            0,
        ) by {
            if i > start {
                assert(has_registers(later.registers, instructions[i].inputs(), 0));
            }
        }
    }
}

/// Where register allocation succeeds, it has assigned a register to every
/// slot that any of the instructions reads.
pub proof fn lemma_every_input_has_a_register(instructions: Seq<InstructionView>)
    requires
        spec_allocate_registers(instructions) is Ok,
    ensures
        forall|i: int, j: int|
            0 <= i < instructions.len() && 0 <= j < instructions[i].inputs().len()
                ==> spec_allocate_registers(instructions)->Ok_0.contains_key(
                #[trigger] instructions[i].inputs()[j].0,
            ),
{
    lemma_allocation_covers_inputs(instructions, 0);
    let registers = spec_allocate_registers(instructions)->Ok_0;
    assert forall|i: int, j: int|
        0 <= i < instructions.len() && 0 <= j < instructions[i].inputs().len()
            implies registers.contains_key(#[trigger] instructions[i].inputs()[j].0) by {
        assert(has_registers(registers, instructions[i].inputs(), 0));
    }
}

fn contains_register(registers: &Vec<Register>, register: Register) -> (found: bool)
    ensures
        found == registers@.contains(register),
{
    let mut index: usize = 0;
    while index < registers.len()
        invariant
            index <= registers.len(),
            forall|i: int| 0 <= i < index ==> registers@[i] != register,
        decreases registers.len() - index,
    {
        if registers[index] == register {
            return true;
        }
        index = index + 1;
    }
    false
}

fn assign_register(register_map: &mut HashMap<u64, Register>, slot: &Slot, register: Register)
    ensures
        final(register_map)@ == spec_assign_register(
            Allocation { registers: old(register_map)@, free: Seq::empty() },
            *slot,
            register,
        ).registers,
{
    if !register_map.contains_key(&slot.0) {
        register_map.insert(slot.0, register);
    }
}

fn choose_register(
    register_map: &mut HashMap<u64, Register>,
    free_registers: &mut Vec<Register>,
    slot: &Slot,
) -> (result: Result<Register, CodegenError>)
    ensures
        match spec_choose_register(
            Allocation { registers: old(register_map)@, free: old(free_registers)@ },
            *slot,
        ) {
            None => result is Err && result->Err_0@ == spilling_error(),
            Some((state, register)) => result is Ok && result->Ok_0 == register
                && final(register_map)@ == state.registers && final(free_registers)@
                == state.free,
        },
{
    match register_map.get(&slot.0) {
        Some(register) => Ok(*register),
        None => match free_registers.pop() {
            None => Err(CodegenError::not_implemented("register spilling")),
            Some(register) => {
                register_map.insert(slot.0, register);
                Ok(register)
            },
        },
    }
}

fn release_register(
    register_map: &HashMap<u64, Register>,
    free_registers: &mut Vec<Register>,
    slot: &Slot,
)
    ensures
        final(free_registers)@ == spec_release_register(
            Allocation { registers: register_map@, free: old(free_registers)@ },
            *slot,
        ).free,
{
    match register_map.get(&slot.0) {
        Some(register) => {
            if !contains_register(free_registers, *register) {
                free_registers.push(*register);
            }
        },
        None => {},
    }
}

fn assign_arguments(register_map: &mut HashMap<u64, Register>, arguments: &Vec<Slot>)
    requires
        arguments@.len() <= 6,
    ensures
        final(register_map)@ == spec_assign_arguments(
            Allocation { registers: old(register_map)@, free: Seq::empty() },
            arguments@,
            0,
        ).registers,
{
    let mut index: usize = 0;
    while index < arguments.len()
        invariant
            index <= arguments.len() <= 6,
            spec_assign_arguments(
                Allocation { registers: register_map@, free: Seq::empty() },
                arguments@,
                index as int,
            ) == spec_assign_arguments(
                Allocation { registers: old(register_map)@, free: Seq::empty() },
                arguments@,
                0,
            ),
        decreases arguments.len() - index,
    {
        match parameter_register(index) {
            Ok(register) => {
                assign_register(register_map, &arguments[index], register);
            },
            Err(_) => {},
        }
        index = index + 1;
    }
}

fn assign_all(register_map: &mut HashMap<u64, Register>, slots: &Vec<Slot>, register: Register)
    ensures
        final(register_map)@ == spec_assign_all(
            Allocation { registers: old(register_map)@, free: Seq::empty() },
            slots@,
            register,
            0,
        ).registers,
{
    let mut index: usize = 0;
    while index < slots.len()
        invariant
            index <= slots.len(),
            spec_assign_all(
                Allocation { registers: register_map@, free: Seq::empty() },
                slots@,
                register,
                index as int,
            ) == spec_assign_all(
                Allocation { registers: old(register_map)@, free: Seq::empty() },
                slots@,
                register,
                0,
            ),
        decreases slots.len() - index,
    {
        assign_register(register_map, &slots[index], register);
        index = index + 1;
    }
}

/// Forcing registers leaves the free registers alone.
proof fn lemma_assign_arguments_free(state: Allocation, arguments: Seq<Slot>, from: int)
    ensures
        spec_assign_arguments(state, arguments, from).free == state.free,
        spec_assign_arguments(state, arguments, from).registers == spec_assign_arguments(
            Allocation { registers: state.registers, free: Seq::empty() },
            arguments,
            from,
        ).registers,
    decreases arguments.len() - from,
{
    if 0 <= from < arguments.len() {
        match spec_parameter_register(from) {
            Some(register) => {
                lemma_assign_arguments_free(
                    spec_assign_register(state, arguments[from], register),
                    arguments,
                    from + 1,
                );
                lemma_assign_arguments_free(
                    spec_assign_register(
                        Allocation { registers: state.registers, free: Seq::empty() },
                        arguments[from],
                        register,
                    ),
                    arguments,
                    from + 1,
                );
            },
            None => {},
        }
    }
}

/// Forcing registers leaves the free registers alone.
proof fn lemma_assign_all_free(state: Allocation, slots: Seq<Slot>, register: Register, from: int)
    ensures
        spec_assign_all(state, slots, register, from).free == state.free,
        spec_assign_all(state, slots, register, from).registers == spec_assign_all(
            Allocation { registers: state.registers, free: Seq::empty() },
            slots,
            register,
            from,
        ).registers,
    decreases slots.len() - from,
{
    if 0 <= from < slots.len() {
        lemma_assign_all_free(
            spec_assign_register(state, slots[from], register),
            slots,
            register,
            from + 1,
        );
        lemma_assign_all_free(
            spec_assign_register(
                Allocation { registers: state.registers, free: Seq::empty() },
                slots[from],
                register,
            ),
            slots,
            register,
            from + 1,
        );
    }
}

/// Looks at one instruction.
fn allocate_instruction(
    register_map: &mut HashMap<u64, Register>,
    free_registers: &mut Vec<Register>,
    instruction: &Instruction,
) -> (result: Result<(), CodegenError>)
    ensures
        match spec_allocate_instruction(
            Allocation { registers: old(register_map)@, free: old(free_registers)@ },
            instruction@,
        ) {
            Err(error) => result is Err && result->Err_0@ == error,
            Ok(state) => result is Ok && final(register_map)@ == state.registers
                && final(free_registers)@ == state.free,
        },
{
    let ghost before = Allocation { registers: register_map@, free: free_registers@ };
    match instruction {
        Instruction::Label(_) => {},
        Instruction::Assign(_, slot) => {
            choose_register(register_map, free_registers, slot)?;
        },
        Instruction::Opcode { destination, opcode } => match opcode {
            Opcode::Return => {},
            Opcode::Jump(condition, _) => match condition {
                JumpCondition::Unconditional => {},
                JumpCondition::Equal(lhs, rhs)
                | JumpCondition::NotEqual(lhs, rhs)
                | JumpCondition::Less(lhs, rhs)
                | JumpCondition::Greater(lhs, rhs)
                | JumpCondition::LessOrEqual(lhs, rhs)
                | JumpCondition::GreaterOrEqual(lhs, rhs) => {
                    choose_register(register_map, free_registers, lhs)?;
                    choose_register(register_map, free_registers, rhs)?;
                },
                JumpCondition::Zero(slot) | JumpCondition::NotZero(slot) => {
                    choose_register(register_map, free_registers, slot)?;
                },
            },
            Opcode::SetReturnValue(slot) => {
                assign_register(register_map, slot, Register::Rax);
            },
            Opcode::Literal(_) | Opcode::FunctionArgument(_) | Opcode::StackVariable(_) => {
                release_register(register_map, free_registers, destination);
            },
            Opcode::CallFunction(_, parameters) => {
                if parameters.len() > 6 {
                    return Err(
                        CodegenError::not_implemented("functions with arity greater than 6"),
                    );
                }
                proof {
                    lemma_assign_arguments_free(before, parameters@, 0);
                }
                assign_arguments(register_map, parameters);
            },
            Opcode::BinaryOperator(lhs, _, rhs) => {
                let register = match register_map.get(&destination.0) {
                    Some(register) => *register,
                    None => {
                        return Err(CodegenError::internal_error("destination register not yet set"));
                    },
                };
                assign_register(register_map, lhs, register);
                choose_register(register_map, free_registers, rhs)?;
            },
            Opcode::PhiStart(slot) => {
                let register = match register_map.get(&destination.0) {
                    Some(register) => *register,
                    None => {
                        return Err(CodegenError::internal_error("destination register not yet set"));
                    },
                };
                assign_register(register_map, slot, register);
            },
            Opcode::PhiEnd(slots) => {
                let register = choose_register(register_map, free_registers, destination)?;
                proof {
                    lemma_assign_all_free(
                        Allocation { registers: register_map@, free: free_registers@ },
                        slots@,
                        register,
                        0,
                    );
                }
                assign_all(register_map, slots, register);
            },
        },
    }
    Ok(())
}

/// Assigns a register to every slot that an instruction reads.
///
/// The walk goes from the last instruction to the first.  A call with more
/// than six arguments and a slot that needs a register when none is free are
/// not implemented; an arithmetic instruction or a join contribution whose
/// result nothing uses is an internal error.
pub fn allocate_registers(instructions: &Vec<Instruction>) -> (result: Result<
    HashMap<u64, Register>,
    CodegenError,
>)
    ensures
        match spec_allocate_registers(instruction_views(instructions@)) {
            Err(error) => result is Err && result->Err_0@ == error,
            Ok(registers) => result is Ok && result->Ok_0@ == registers,
        },
{
    let mut free_registers: Vec<Register> = Vec::new();
    free_registers.push(Register::R8);
    free_registers.push(Register::R9);
    free_registers.push(Register::R10);
    free_registers.push(Register::R11);
    assert(free_registers@ == initial_allocation().free);
    let mut register_map: HashMap<u64, Register> = HashMap::new();
    let ghost views = instruction_views(instructions@);
    let mut index: usize = instructions.len();
    while index > 0
        invariant
            index <= instructions.len(),
            views == instruction_views(instructions@),
            spec_allocation_from(views, index as int) == Ok::<_, CodegenErrorView>(
                Allocation { registers: register_map@, free: free_registers@ },
            ),
        decreases index,
    {
        index = index - 1;
        match allocate_instruction(&mut register_map, &mut free_registers, &instructions[index]) {
            Ok(()) => {},
            Err(error) => {
                proof {
                    lemma_allocation_error_persists(views, index as int, 0);
                }
                return Err(error);
            },
        }
    }
    Ok(register_map)
}

} // verus!
