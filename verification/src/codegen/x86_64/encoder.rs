//! Encoding of machine instructions to bytes, by the assembler of the
//! `iced_x86` crate.
//!
//! The functions whose names begin with `asm_` make one call of the
//! assembler each.  Their contracts are not proved: they state what the
//! assembler's source shows of the call.

use iced_x86::code_asm::registers::gpr64::{r10, r11, r8, r9, rax, rbp, rcx, rdi, rdx, rsi, rsp};
use iced_x86::code_asm::CodeAssembler;
use vstd::prelude::*;
use super::error::{CodegenError, CodegenErrorView};
use super::machine::{
    BranchCondition, MachineInstruction, MachineLabel, Program, ProgramView, Register,
};
use crate::value::{EncodedValue, RawValue, ValueEncodeError};

verus! {

#[verifier::external_type_specification]
#[verifier::external_body]
pub struct ExCodeAssembler(iced_x86::code_asm::CodeAssembler);

#[verifier::external_type_specification]
#[verifier::external_body]
pub struct ExAssemblerLabel(iced_x86::code_asm::CodeLabel);

#[verifier::external_type_specification]
#[verifier::external_body]
pub struct ExAssemblerError(iced_x86::IcedError);

#[verifier::external_type_specification]
#[verifier::external_body]
pub struct ExAssemblerRegister(iced_x86::code_asm::AsmRegister64);

/// What an assembler holds: the instructions added to it and the labels
/// set in it, in the order of the calls.  The label that the assembler
/// numbers `n` is written `MachineLabel(n - 1)`.
pub uninterp spec fn assembled(assembler: CodeAssembler) -> Seq<MachineInstruction>;

/// The number of labels that an assembler has created.
pub uninterp spec fn created_labels(assembler: CodeAssembler) -> nat;

/// Whether an assembler is as `CodeAssembler::new` makes one for 64-bit
/// code but for its instructions and labels: its options are those that it
/// was made with, and neither a prefix nor an anonymous label waits for the
/// next instruction.
pub uninterp spec fn plain_assembler(assembler: CodeAssembler) -> bool;

/// The number that the assembler gave to a label when it created it.
pub uninterp spec fn label_number(label: iced_x86::code_asm::CodeLabel) -> u64;

/// Whether a label was set at an instruction.
pub uninterp spec fn label_is_set(label: iced_x86::code_asm::CodeLabel) -> bool;

/// The bytes that a plain assembler encodes its instructions to, for code
/// that is to run at the address `ip`, or `None` where it refuses to encode
/// them.
pub uninterp spec fn machine_code(instructions: Seq<MachineInstruction>, ip: u64) -> Option<
    Seq<u8>,
>;

/// The assembler's constant for a register.
pub uninterp spec fn register_constant(register: Register) -> iced_x86::code_asm::AsmRegister64;

/// A register together with the assembler's constant for it.
struct Operand {
    register: Register,
    constant: iced_x86::code_asm::AsmRegister64,
}

impl Operand {
    /// Whether the constant is the one for the register.
    spec fn wf(self) -> bool {
        self.constant == register_constant(self.register)
    }
}

/// The code label that an assembler's label stands for.
pub open spec fn code_label(label: iced_x86::code_asm::CodeLabel) -> MachineLabel {
    MachineLabel((label_number(label) - 1) as usize)
}

/// Whether a label waits for the instruction that it is set at: the last
/// that the assembler took was the setting of a label.
pub open spec fn label_waits(instructions: Seq<MachineInstruction>) -> bool {
    instructions.len() > 0 && instructions.last() is Label
}

/// Whether a call of the assembler added the instruction.  A plain
/// assembler refuses none of the instructions that the functions below hand
/// to it, and stays plain.
pub open spec fn added(
    before: CodeAssembler,
    after: CodeAssembler,
    result: Result<(), iced_x86::IcedError>,
    instruction: MachineInstruction,
) -> bool {
    &&& result is Ok
    &&& plain_assembler(after)
    &&& created_labels(after) == created_labels(before)
    &&& assembled(after) == assembled(before).push(instruction)
}

/// `iced_x86::code_asm::registers::gpr64`: the constants of the 64-bit
/// general-purpose registers.  Each register has its constant.
#[verifier::external_body]
fn gpr64(register: Register) -> (operand: Operand)
    ensures
        operand.register == register,
        operand.constant == register_constant(register),
{
    let constant = match register {
        Register::Rax => rax, Register::Rcx => rcx, Register::Rdx => rdx,
        Register::Rsi => rsi, Register::Rdi => rdi, Register::Rbp => rbp,
        Register::Rsp => rsp, Register::R8 => r8, Register::R9 => r9,
        Register::R10 => r10, Register::R11 => r11,
    };
    Operand { register, constant }
}

/// `CodeAssembler::new` with a bitness of 64, which it accepts: the new
/// assembler is plain, holds no instruction and has created no label.
#[verifier::external_body]
fn asm_new() -> (result: Result<CodeAssembler, iced_x86::IcedError>)
    ensures
        result is Ok,
        plain_assembler(result->Ok_0),
        assembled(result->Ok_0) == Seq::<MachineInstruction>::empty(),
        created_labels(result->Ok_0) == 0,
{
    CodeAssembler::new(64)
}

/// `CodeAssembler::create_label`: the assembler numbers its labels from one
/// in the order in which it creates them.  The new label is not set, and no
/// instruction is added.
#[verifier::external_body]
fn asm_create_label(assembler: &mut CodeAssembler) -> (label: iced_x86::code_asm::CodeLabel)
    requires
        plain_assembler(*old(assembler)),
        created_labels(*old(assembler)) < u64::MAX,
    ensures
        plain_assembler(*final(assembler)),
        label_number(label) == created_labels(*old(assembler)) + 1,
        !label_is_set(label),
        created_labels(*final(assembler)) == created_labels(*old(assembler)) + 1,
        assembled(*final(assembler)) == assembled(*old(assembler)),
{
    assembler.create_label()
}

/// `CodeAssembler::set_label`: the assembler sets a label at the
/// instruction that is added next.  It does so exactly where the label was
/// created, is not set yet, and no other label waits for that instruction.
/// Where it refuses, the assembler and the label stay as they were.  The
/// label keeps its number.
#[verifier::external_body]
fn asm_set_label(
    assembler: &mut CodeAssembler,
    label: &mut iced_x86::code_asm::CodeLabel,
) -> (result: Result<(), iced_x86::IcedError>)
    requires
        plain_assembler(*old(assembler)),
    ensures
        plain_assembler(*final(assembler)),
        created_labels(*final(assembler)) == created_labels(*old(assembler)),
        label_number(*final(label)) == label_number(*old(label)),
        result is Ok <==> label_number(*old(label)) >= 1 && !label_is_set(*old(label))
            && !label_waits(assembled(*old(assembler))),
        result is Ok ==> label_is_set(*final(label)) && assembled(*final(assembler))
            == assembled(*old(assembler)).push(MachineInstruction::Label(code_label(*old(label)))),
        result is Err ==> label_is_set(*final(label)) == label_is_set(*old(label))
            && assembled(*final(assembler)) == assembled(*old(assembler)),
{
    assembler.set_label(label)
}

/// `CodeAssembler::push` of a 64-bit register.
#[verifier::external_body]
fn asm_push(assembler: &mut CodeAssembler, register: Operand) -> (result: Result<
    (),
    iced_x86::IcedError,
>)
    requires
        plain_assembler(*old(assembler)),
        register.wf(),
    ensures
        added(*old(assembler), *final(assembler), result, MachineInstruction::Push(register.register)),
{
    assembler.push(register.constant)
}

/// `CodeAssembler::pop` of a 64-bit register.
#[verifier::external_body]
fn asm_pop(assembler: &mut CodeAssembler, register: Operand) -> (result: Result<
    (),
    iced_x86::IcedError,
>)
    requires
        plain_assembler(*old(assembler)),
        register.wf(),
    ensures
        added(*old(assembler), *final(assembler), result, MachineInstruction::Pop(register.register)),
{
    assembler.pop(register.constant)
}

/// `CodeAssembler::ret`.
#[verifier::external_body]
fn asm_ret(assembler: &mut CodeAssembler) -> (result: Result<(), iced_x86::IcedError>)
    requires
        plain_assembler(*old(assembler)),
    ensures
        added(*old(assembler), *final(assembler), result, MachineInstruction::Ret),
{
    assembler.ret()
}

/// `CodeAssembler::mov` from a 64-bit register to a 64-bit register.
#[verifier::external_body]
fn asm_mov(assembler: &mut CodeAssembler, destination: Operand, source: Operand) -> (result: Result<
    (),
    iced_x86::IcedError,
>)
    requires
        plain_assembler(*old(assembler)),
        destination.wf(),
        source.wf(),
    ensures
        added(*old(assembler), *final(assembler), result, MachineInstruction::Move(destination.register, source.register)),
{
    assembler.mov(destination.constant, source.constant)
}

/// `CodeAssembler::mov` of a 64-bit immediate to a 64-bit register.
#[verifier::external_body]
fn asm_mov_immediate(assembler: &mut CodeAssembler, destination: Operand, value: u64) -> (result: Result<
    (),
    iced_x86::IcedError,
>)
    requires
        plain_assembler(*old(assembler)),
        destination.wf(),
    ensures
        added(*old(assembler), *final(assembler), result, MachineInstruction::MoveImmediate(destination.register, value)),
{
    assembler.mov(destination.constant, value)
}

/// `CodeAssembler::mov` to a 64-bit register from the quadword at a
/// displacement from `rbp`.
#[verifier::external_body]
fn asm_load(assembler: &mut CodeAssembler, destination: Operand, displacement: i32) -> (result: Result<
    (),
    iced_x86::IcedError,
>)
    requires
        plain_assembler(*old(assembler)),
        destination.wf(),
    ensures
        added(*old(assembler), *final(assembler), result, MachineInstruction::Load(destination.register, displacement)),
{
    assembler.mov(destination.constant, iced_x86::code_asm::qword_ptr(rbp + displacement))
}

/// `CodeAssembler::mov` from a 64-bit register to the quadword at a
/// displacement from `rbp`.
#[verifier::external_body]
fn asm_store(assembler: &mut CodeAssembler, displacement: i32, source: Operand) -> (result: Result<
    (),
    iced_x86::IcedError,
>)
    requires
        plain_assembler(*old(assembler)),
        source.wf(),
    ensures
        added(*old(assembler), *final(assembler), result, MachineInstruction::Store(displacement, source.register)),
{
    assembler.mov(iced_x86::code_asm::qword_ptr(rbp + displacement), source.constant)
}

/// `CodeAssembler::add` of a 64-bit register to a 64-bit register.
#[verifier::external_body]
fn asm_add(assembler: &mut CodeAssembler, destination: Operand, source: Operand) -> (result: Result<
    (),
    iced_x86::IcedError,
>)
    requires
        plain_assembler(*old(assembler)),
        destination.wf(),
        source.wf(),
    ensures
        added(*old(assembler), *final(assembler), result, MachineInstruction::Add(destination.register, source.register)),
{
    assembler.add(destination.constant, source.constant)
}

/// `CodeAssembler::sub` of a 64-bit register from a 64-bit register.
#[verifier::external_body]
fn asm_sub(assembler: &mut CodeAssembler, destination: Operand, source: Operand) -> (result: Result<
    (),
    iced_x86::IcedError,
>)
    requires
        plain_assembler(*old(assembler)),
        destination.wf(),
        source.wf(),
    ensures
        added(*old(assembler), *final(assembler), result, MachineInstruction::Subtract(destination.register, source.register)),
{
    assembler.sub(destination.constant, source.constant)
}

/// `CodeAssembler::sub` of a 32-bit immediate from a 64-bit register.
#[verifier::external_body]
fn asm_sub_immediate(assembler: &mut CodeAssembler, destination: Operand, value: i32) -> (result: Result<
    (),
    iced_x86::IcedError,
>)
    requires
        plain_assembler(*old(assembler)),
        destination.wf(),
    ensures
        added(*old(assembler), *final(assembler), result, MachineInstruction::SubtractImmediate(destination.register, value)),
{
    assembler.sub(destination.constant, value)
}

/// `CodeAssembler::imul_2` of two 64-bit registers.
#[verifier::external_body]
fn asm_imul(assembler: &mut CodeAssembler, destination: Operand, source: Operand) -> (result: Result<
    (),
    iced_x86::IcedError,
>)
    requires
        plain_assembler(*old(assembler)),
        destination.wf(),
        source.wf(),
    ensures
        added(*old(assembler), *final(assembler), result, MachineInstruction::Multiply(destination.register, source.register)),
{
    assembler.imul_2(destination.constant, source.constant)
}

/// `CodeAssembler::test` of two 64-bit registers.
#[verifier::external_body]
fn asm_test(assembler: &mut CodeAssembler, lhs: Operand, rhs: Operand) -> (result: Result<
    (),
    iced_x86::IcedError,
>)
    requires
        plain_assembler(*old(assembler)),
        lhs.wf(),
        rhs.wf(),
    ensures
        added(*old(assembler), *final(assembler), result, MachineInstruction::Test(lhs.register, rhs.register)),
{
    assembler.test(lhs.constant, rhs.constant)
}

/// `CodeAssembler::cmp` of two 64-bit registers.
#[verifier::external_body]
fn asm_cmp(assembler: &mut CodeAssembler, lhs: Operand, rhs: Operand) -> (result: Result<
    (),
    iced_x86::IcedError,
>)
    requires
        plain_assembler(*old(assembler)),
        lhs.wf(),
        rhs.wf(),
    ensures
        added(*old(assembler), *final(assembler), result, MachineInstruction::Compare(lhs.register, rhs.register)),
{
    assembler.cmp(lhs.constant, rhs.constant)
}

/// `CodeAssembler::call` of an address.
#[verifier::external_body]
fn asm_call(assembler: &mut CodeAssembler, address: u64) -> (result: Result<
    (),
    iced_x86::IcedError,
>)
    requires
        plain_assembler(*old(assembler)),
    ensures
        added(*old(assembler), *final(assembler), result, MachineInstruction::Call(address)),
{
    assembler.call(address)
}

/// `CodeAssembler::jmp` to a label.
#[verifier::external_body]
fn asm_jmp(assembler: &mut CodeAssembler, label: iced_x86::code_asm::CodeLabel) -> (result: Result<
    (),
    iced_x86::IcedError,
>)
    requires
        plain_assembler(*old(assembler)),
        label_number(label) >= 1,
    ensures
        added(
            *old(assembler),
            *final(assembler),
            result,
            MachineInstruction::Jump(code_label(label)),
        ),
{
    assembler.jmp(label)
}

/// `CodeAssembler::je` to a label.  The assembler's `jz` adds the same
/// instruction.
#[verifier::external_body]
fn asm_je(assembler: &mut CodeAssembler, label: iced_x86::code_asm::CodeLabel) -> (result: Result<
    (),
    iced_x86::IcedError,
>)
    requires
        plain_assembler(*old(assembler)),
        label_number(label) >= 1,
    ensures
        added(
            *old(assembler),
            *final(assembler),
            result,
            MachineInstruction::Branch(BranchCondition::Equal, code_label(label)),
        ),
{
    assembler.je(label)
}

/// `CodeAssembler::jne` to a label.  The assembler's `jnz` adds the same
/// instruction.
#[verifier::external_body]
fn asm_jne(assembler: &mut CodeAssembler, label: iced_x86::code_asm::CodeLabel) -> (result: Result<
    (),
    iced_x86::IcedError,
>)
    requires
        plain_assembler(*old(assembler)),
        label_number(label) >= 1,
    ensures
        added(
            *old(assembler),
            *final(assembler),
            result,
            MachineInstruction::Branch(BranchCondition::NotEqual, code_label(label)),
        ),
{
    assembler.jne(label)
}

/// `CodeAssembler::jl` to a label.
#[verifier::external_body]
fn asm_jl(assembler: &mut CodeAssembler, label: iced_x86::code_asm::CodeLabel) -> (result: Result<
    (),
    iced_x86::IcedError,
>)
    requires
        plain_assembler(*old(assembler)),
        label_number(label) >= 1,
    ensures
        added(
            *old(assembler),
            *final(assembler),
            result,
            MachineInstruction::Branch(BranchCondition::Less, code_label(label)),
        ),
{
    assembler.jl(label)
}

/// `CodeAssembler::jle` to a label.
#[verifier::external_body]
fn asm_jle(assembler: &mut CodeAssembler, label: iced_x86::code_asm::CodeLabel) -> (result: Result<
    (),
    iced_x86::IcedError,
>)
    requires
        plain_assembler(*old(assembler)),
        label_number(label) >= 1,
    ensures
        added(
            *old(assembler),
            *final(assembler),
            result,
            MachineInstruction::Branch(BranchCondition::LessOrEqual, code_label(label)),
        ),
{
    assembler.jle(label)
}

/// `CodeAssembler::jg` to a label.
#[verifier::external_body]
fn asm_jg(assembler: &mut CodeAssembler, label: iced_x86::code_asm::CodeLabel) -> (result: Result<
    (),
    iced_x86::IcedError,
>)
    requires
        plain_assembler(*old(assembler)),
        label_number(label) >= 1,
    ensures
        added(
            *old(assembler),
            *final(assembler),
            result,
            MachineInstruction::Branch(BranchCondition::Greater, code_label(label)),
        ),
{
    assembler.jg(label)
}

/// `CodeAssembler::jge` to a label.
#[verifier::external_body]
fn asm_jge(assembler: &mut CodeAssembler, label: iced_x86::code_asm::CodeLabel) -> (result: Result<
    (),
    iced_x86::IcedError,
>)
    requires
        plain_assembler(*old(assembler)),
        label_number(label) >= 1,
    ensures
        added(
            *old(assembler),
            *final(assembler),
            result,
            MachineInstruction::Branch(BranchCondition::GreaterOrEqual, code_label(label)),
        ),
{
    assembler.jge(label)
}

/// `CodeAssembler::assemble`: whether the assembler encodes, and the bytes
/// that it encodes to, depend on the instructions and labels that it holds
/// and on the address that the code is to run at.
#[verifier::external_body]
fn asm_assemble(assembler: &mut CodeAssembler, ip: u64) -> (result: Result<
    Vec<u8>,
    iced_x86::IcedError,
>)
    requires
        plain_assembler(*old(assembler)),
    ensures
        match machine_code(assembled(*old(assembler)), ip) {
            Some(code) => result is Ok && result->Ok_0@ == code,
            None => result is Err,
        },
{
    assembler.assemble(ip)
}

} // verus!

verus! {

pub open spec fn missing_address_error() -> CodegenErrorView {
    CodegenErrorView::InternalError("string constant without an address"@)
}

pub open spec fn label_range_error() -> CodegenErrorView {
    CodegenErrorView::InternalError("label out of range"@)
}

pub open spec fn unresolved_string_error() -> CodegenErrorView {
    CodegenErrorView::InternalError("string constant not resolved"@)
}

/// An instruction with the address of a string constant filled in.
///
/// The load of a string constant becomes the load of the encoded address
/// of the constant's boxed copy.  A constant without an address is an
/// internal error, and an address that reaches into the tag bits of an
/// encoded word is an overflow.
pub open spec fn spec_resolve_instruction(
    instruction: MachineInstruction,
    string_addresses: Seq<u64>,
) -> Result<MachineInstruction, CodegenErrorView> {
    match instruction {
        MachineInstruction::MoveString(register, index) => if index >= string_addresses.len() {
            Err(missing_address_error())
        } else if !RawValue::String(string_addresses[index as int]).encodable() {
            Err(CodegenErrorView::ValueEncodeError(ValueEncodeError::Overflow))
        } else {
            Ok(
                MachineInstruction::MoveImmediate(
                    register,
                    RawValue::String(string_addresses[index as int]).encoding() as u64,
                ),
            )
        },
        _ => Ok(instruction),
    }
}

/// The instructions from index `from` on with the addresses of the string
/// constants filled in, or the error of the first that cannot be.
pub open spec fn spec_resolve_strings(
    instructions: Seq<MachineInstruction>,
    string_addresses: Seq<u64>,
    from: int,
) -> Result<Seq<MachineInstruction>, CodegenErrorView>
    decreases instructions.len() - from,
{
    if 0 <= from < instructions.len() {
        match spec_resolve_instruction(instructions[from], string_addresses) {
            Err(error) => Err(error),
            Ok(instruction) => match spec_resolve_strings(
                instructions,
                string_addresses,
                from + 1,
            ) {
                Err(error) => Err(error),
                Ok(rest) => Ok(seq![instruction] + rest),
            },
        }
    } else {
        Ok(seq![])
    }
}

/// Fills in the address of a string constant.
fn resolve_instruction(instruction: MachineInstruction, string_addresses: &Vec<u64>) -> (result:
    Result<MachineInstruction, CodegenError>)
    ensures
        match spec_resolve_instruction(instruction, string_addresses@) {
            Err(error) => result is Err && result->Err_0@ == error,
            Ok(resolved) => result == Ok::<_, CodegenError>(resolved),
        },
{
    match instruction {
        MachineInstruction::MoveString(register, index) => {
            if index >= string_addresses.len() {
                return Err(CodegenError::internal_error("string constant without an address"));
            }
            let raw = RawValue::String(string_addresses[index]);
            match EncodedValue::encode(&raw) {
                Ok(value) => Ok(MachineInstruction::MoveImmediate(register, value.encoded_value())),
                Err(error) => Err(CodegenError::ValueEncodeError(error)),
            }
        },
        _ => Ok(instruction),
    }
}

/// Fills in the addresses of the string constants of a program.
///
/// `string_addresses[i]` is the address of the boxed copy of the program's
/// string with the index `i`.
pub fn resolve_strings(program: &Program, string_addresses: &Vec<u64>) -> (result: Result<
    Vec<MachineInstruction>,
    CodegenError,
>)
    ensures
        match spec_resolve_strings(program@.instructions, string_addresses@, 0) {
            Err(error) => result is Err && result->Err_0@ == error,
            Ok(resolved) => result is Ok && result->Ok_0@ == resolved,
        },
{
    let mut resolved: Vec<MachineInstruction> = Vec::new();
    let mut index: usize = 0;
    let ghost instructions = program@.instructions;
    let ghost whole = spec_resolve_strings(instructions, string_addresses@, 0);
    while index < program.instructions.len()
        invariant
            index <= program.instructions.len(),
            instructions == program.instructions@,
            whole == spec_resolve_strings(instructions, string_addresses@, 0),
            whole == match spec_resolve_strings(instructions, string_addresses@, index as int) {
                Err(error) => Err(error),
                Ok(rest) => Ok(resolved@ + rest),
            },
        decreases program.instructions.len() - index,
    {
        let ghost rest = spec_resolve_strings(instructions, string_addresses@, index + 1);
        let instruction = resolve_instruction(program.instructions[index], string_addresses)?;
        proof {
            if rest is Ok {
                assert(resolved@ + (seq![instruction] + rest->Ok_0) =~= resolved@.push(instruction)
                    + rest->Ok_0);
            }
        }
        resolved.push(instruction);
        index = index + 1;
    }
    assert(resolved@ + Seq::<MachineInstruction>::empty() =~= resolved@);
    Ok(resolved)
}

/// Whether the encoder takes an instruction: it takes no string constant
/// without its address, and no label with the largest number.
pub open spec fn encodable_instruction(instruction: MachineInstruction) -> bool {
    match instruction {
        MachineInstruction::MoveString(_, _) => false,
        MachineInstruction::Label(label)
        | MachineInstruction::Jump(label)
        | MachineInstruction::Branch(_, label) => label.0 < usize::MAX,
        _ => true,
    }
}

/// The error of an instruction that the encoder does not take.
pub open spec fn spec_encodable_error(instruction: MachineInstruction) -> CodegenErrorView {
    match instruction {
        MachineInstruction::MoveString(_, _) => unresolved_string_error(),
        _ => label_range_error(),
    }
}

/// The index of the first instruction from index `from` on that the encoder
/// does not take.
pub open spec fn spec_first_unencodable(instructions: Seq<MachineInstruction>, from: int) -> Option<
    int,
>
    decreases instructions.len() - from,
{
    if 0 <= from < instructions.len() {
        if encodable_instruction(instructions[from]) {
            spec_first_unencodable(instructions, from + 1)
        } else {
            Some(from)
        }
    } else {
        None
    }
}

/// Where no instruction is refused, each is taken.
proof fn lemma_all_encodable(instructions: Seq<MachineInstruction>, from: int)
    requires
        0 <= from,
        spec_first_unencodable(instructions, from) is None,
    ensures
        forall|i: int|
            from <= i < instructions.len() ==> encodable_instruction(#[trigger] instructions[i]),
    decreases instructions.len() - from,
{
    if from < instructions.len() {
        lemma_all_encodable(instructions, from + 1);
    }
}

fn check_encodable(instructions: &Vec<MachineInstruction>) -> (result: Result<(), CodegenError>)
    ensures
        match spec_first_unencodable(instructions@, 0) {
            Some(index) => result is Err && result->Err_0@ == spec_encodable_error(
                instructions@[index],
            ),
            None => result is Ok,
        },
{
    let mut index: usize = 0;
    while index < instructions.len()
        invariant
            index <= instructions.len(),
            spec_first_unencodable(instructions@, index as int) == spec_first_unencodable(
                instructions@,
                0,
            ),
        decreases instructions.len() - index,
    {
        match instructions[index] {
            MachineInstruction::MoveString(_, _) => {
                return Err(CodegenError::internal_error("string constant not resolved"));
            },
            MachineInstruction::Label(label)
            | MachineInstruction::Jump(label)
            | MachineInstruction::Branch(_, label) => {
                if label.0 >= usize::MAX {
                    return Err(CodegenError::internal_error("label out of range"));
                }
            },
            _ => {},
        }
        index = index + 1;
    }
    Ok(())
}

/// Whether the assembler's label with the index `i` in the table is the
/// one that the assembler numbers `i + 1`, for each label that the
/// assembler has created.
pub open spec fn labels_in_order(
    assembler: CodeAssembler,
    labels: Seq<iced_x86::code_asm::CodeLabel>,
) -> bool {
    &&& created_labels(assembler) == labels.len()
    &&& forall|i: int| 0 <= i < labels.len() ==> label_number(#[trigger] labels[i]) == i + 1
}

/// Whether the table holds a label at an index, and the label is set.
pub open spec fn set_in(labels: Seq<iced_x86::code_asm::CodeLabel>, index: int) -> bool {
    0 <= index < labels.len() && label_is_set(labels[index])
}

/// Whether one of the first `upto` instructions binds the label.
pub open spec fn bound_before(
    instructions: Seq<MachineInstruction>,
    upto: int,
    label: MachineLabel,
) -> bool
    decreases upto,
{
    if 0 < upto <= instructions.len() {
        instructions[upto - 1] == MachineInstruction::Label(label) || bound_before(
            instructions,
            upto - 1,
            label,
        )
    } else {
        false
    }
}

/// Whether the assembler accepts the instruction at an index after those
/// before it.  It accepts every instruction but the binding of a label that
/// an earlier instruction has bound, and the binding of a label right after
/// the binding of another.
pub open spec fn label_accepted(instructions: Seq<MachineInstruction>, index: int) -> bool {
    match instructions[index] {
        MachineInstruction::Label(label) => !bound_before(instructions, index, label) && !(index
            > 0 && instructions[index - 1] is Label),
        _ => true,
    }
}

/// Whether the assembler accepts each of the instructions in its turn.
pub open spec fn labels_accepted(instructions: Seq<MachineInstruction>) -> bool {
    forall|i: int| 0 <= i < instructions.len() ==> #[trigger] label_accepted(instructions, i)
}

/// Whether the table of labels tells which labels the first `upto`
/// instructions have bound: they bind a label exactly where the table holds
/// it as set.
pub open spec fn labels_track(
    labels: Seq<iced_x86::code_asm::CodeLabel>,
    instructions: Seq<MachineInstruction>,
    upto: int,
) -> bool {
    forall|label: MachineLabel| #[trigger]
        bound_before(instructions, upto, label) == set_in(labels, label.0 as int)
}

/// The number of labels in the table once the labels up to the one that
/// stands for `target` were created: a table that holds the label already
/// keeps its length.
pub open spec fn spec_label_count(count: nat, target: MachineLabel) -> nat {
    if count > target.0 {
        count
    } else {
        (target.0 + 1) as nat
    }
}

/// The number of labels in the table once an instruction was handed to the
/// assembler: the label that the instruction names is created with those
/// before it.
pub open spec fn spec_label_count_after(count: nat, instruction: MachineInstruction) -> nat {
    match instruction {
        MachineInstruction::Label(target)
        | MachineInstruction::Jump(target)
        | MachineInstruction::Branch(_, target) => spec_label_count(count, target),
        _ => count,
    }
}

/// Creates the assembler's labels up to the one that stands for `target`.
/// The labels that the table held stay as they are, and the new ones are
/// not set.
fn create_labels(
    assembler: &mut CodeAssembler,
    labels: &mut Vec<iced_x86::code_asm::CodeLabel>,
    target: MachineLabel,
)
    requires
        target.0 < usize::MAX,
        plain_assembler(*old(assembler)),
        labels_in_order(*old(assembler), old(labels)@),
    ensures
        plain_assembler(*final(assembler)),
        labels_in_order(*final(assembler), final(labels)@),
        final(labels)@.len() == spec_label_count(old(labels)@.len(), target),
        old(labels)@.is_prefix_of(final(labels)@),
        forall|k: int|
            0 <= k < final(labels)@.len() ==> label_is_set(#[trigger] final(labels)@[k])
                == set_in(old(labels)@, k),
        assembled(*final(assembler)) == assembled(*old(assembler)),
{
    while labels.len() <= target.0
        invariant
            target.0 < usize::MAX,
            plain_assembler(*assembler),
            labels_in_order(*assembler, labels@),
            old(labels)@.is_prefix_of(labels@),
            labels@.len() == old(labels)@.len() || labels@.len() <= target.0 + 1,
            forall|k: int|
                0 <= k < labels@.len() ==> label_is_set(#[trigger] labels@[k]) == set_in(
                    old(labels)@,
                    k,
                ),
            assembled(*assembler) == assembled(*old(assembler)),
        decreases target.0 + 1 - labels.len(),
    {
        let label = asm_create_label(assembler);
        labels.push(label);
    }
}

/// Hands a branch to the assembler.
fn encode_branch(
    assembler: &mut CodeAssembler,
    condition: BranchCondition,
    label: iced_x86::code_asm::CodeLabel,
) -> (result: Result<(), iced_x86::IcedError>)
    requires
        plain_assembler(*old(assembler)),
        label_number(label) >= 1,
    ensures
        added(
            *old(assembler),
            *final(assembler),
            result,
            MachineInstruction::Branch(condition, code_label(label)),
        ),
{
    match condition {
        BranchCondition::Equal => asm_je(assembler, label),
        BranchCondition::NotEqual => asm_jne(assembler, label),
        BranchCondition::Less => asm_jl(assembler, label),
        BranchCondition::LessOrEqual => asm_jle(assembler, label),
        BranchCondition::Greater => asm_jg(assembler, label),
        BranchCondition::GreaterOrEqual => asm_jge(assembler, label),
    }
}

/// Sets the assembler's label that stands for `target`.
///
/// The labels up to that one are created first, whatever the assembler
/// then says to the setting of the label.  The assembler sets the label
/// exactly where the label is not set yet and no other label waits for its
/// instruction.  Where it refuses, it holds the instructions that it held.
fn encode_label(
    assembler: &mut CodeAssembler,
    labels: &mut Vec<iced_x86::code_asm::CodeLabel>,
    target: MachineLabel,
) -> (result: Result<(), iced_x86::IcedError>)
    requires
        target.0 < usize::MAX,
        plain_assembler(*old(assembler)),
        labels_in_order(*old(assembler), old(labels)@),
    ensures
        plain_assembler(*final(assembler)),
        labels_in_order(*final(assembler), final(labels)@),
        final(labels)@.len() == spec_label_count(old(labels)@.len(), target),
        result is Ok <==> !set_in(old(labels)@, target.0 as int) && !label_waits(
            assembled(*old(assembler)),
        ),
        forall|k: int|
            0 <= k < final(labels)@.len() ==> label_is_set(#[trigger] final(labels)@[k]) == (
            set_in(old(labels)@, k) || (k == target.0 && result is Ok)),
        result is Ok ==> assembled(*final(assembler)) == assembled(*old(assembler)).push(
            MachineInstruction::Label(target),
        ),
        result is Err ==> assembled(*final(assembler)) == assembled(*old(assembler)),
{
    create_labels(assembler, labels, target);
    let ghost created = labels@;
    let mut label = labels[target.0];
    let result = asm_set_label(assembler, &mut label);
    labels[target.0] = label;
    assert(labels@ == created.update(target.0 as int, label));
    assert forall|i: int| 0 <= i < labels@.len() implies label_number(#[trigger] labels@[i]) == i
        + 1 by {
        if i != target.0 {
            assert(labels@[i] == created[i]);
        }
    }
    assert forall|k: int| 0 <= k < labels@.len() implies label_is_set(#[trigger] labels@[k]) == (
    set_in(old(labels)@, k) || (k == target.0 && result is Ok)) by {
        if k != target.0 {
            assert(labels@[k] == created[k]);
        }
    }
    result
}

/// Hands a jump or a branch to the assembler, which takes it.
///
/// The labels up to the target are created first, and the labels that the
/// table held stay as they are.
fn encode_jump(
    assembler: &mut CodeAssembler,
    labels: &mut Vec<iced_x86::code_asm::CodeLabel>,
    condition: Option<BranchCondition>,
    target: MachineLabel,
) -> (result: Result<(), iced_x86::IcedError>)
    requires
        target.0 < usize::MAX,
        plain_assembler(*old(assembler)),
        labels_in_order(*old(assembler), old(labels)@),
    ensures
        result is Ok,
        plain_assembler(*final(assembler)),
        labels_in_order(*final(assembler), final(labels)@),
        final(labels)@.len() == spec_label_count(old(labels)@.len(), target),
        old(labels)@.is_prefix_of(final(labels)@),
        forall|k: int|
            0 <= k < final(labels)@.len() ==> label_is_set(#[trigger] final(labels)@[k])
                == set_in(old(labels)@, k),
        assembled(*final(assembler)) == assembled(*old(assembler)).push(
            match condition {
                Some(condition) => MachineInstruction::Branch(condition, target),
                None => MachineInstruction::Jump(target),
            },
        ),
{
    create_labels(assembler, labels, target);
    let label = labels[target.0];
    match condition {
        Some(condition) => encode_branch(assembler, condition, label),
        None => asm_jmp(assembler, label),
    }
}

/// Whether an instruction names no label.
pub open spec fn names_no_label(instruction: MachineInstruction) -> bool {
    !(instruction is Label) && !(instruction is Jump) && !(instruction is Branch)
}

/// Hands an instruction that moves data to the assembler, which takes it.
fn encode_move(assembler: &mut CodeAssembler, instruction: MachineInstruction) -> (result: Result<
    (),
    iced_x86::IcedError,
>)
    requires
        plain_assembler(*old(assembler)),
        instruction is Move || instruction is MoveImmediate || instruction is Load
            || instruction is Store || instruction is Push || instruction is Pop,
    ensures
        added(*old(assembler), *final(assembler), result, instruction),
{
    match instruction {
        MachineInstruction::Push(register) => asm_push(assembler, gpr64(register)),
        MachineInstruction::Pop(register) => asm_pop(assembler, gpr64(register)),
        MachineInstruction::Move(destination, source) => asm_mov(
            assembler,
            gpr64(destination),
            gpr64(source),
        ),
        MachineInstruction::MoveImmediate(destination, value) => asm_mov_immediate(
            assembler,
            gpr64(destination),
            value,
        ),
        MachineInstruction::Load(destination, displacement) => asm_load(
            assembler,
            gpr64(destination),
            displacement,
        ),
        MachineInstruction::Store(displacement, source) => asm_store(
            assembler,
            displacement,
            gpr64(source),
        ),
        _ => Ok(()),
    }
}

/// Hands an instruction that computes to the assembler, which takes it.
fn encode_arithmetic(assembler: &mut CodeAssembler, instruction: MachineInstruction) -> (result:
    Result<(), iced_x86::IcedError>)
    requires
        plain_assembler(*old(assembler)),
        instruction is Add || instruction is Subtract || instruction is SubtractImmediate
            || instruction is Multiply || instruction is Test || instruction is Compare,
    ensures
        added(*old(assembler), *final(assembler), result, instruction),
{
    match instruction {
        MachineInstruction::Add(destination, source) => asm_add(
            assembler,
            gpr64(destination),
            gpr64(source),
        ),
        MachineInstruction::Subtract(destination, source) => asm_sub(
            assembler,
            gpr64(destination),
            gpr64(source),
        ),
        MachineInstruction::SubtractImmediate(destination, value) => asm_sub_immediate(
            assembler,
            gpr64(destination),
            value,
        ),
        MachineInstruction::Multiply(destination, source) => asm_imul(
            assembler,
            gpr64(destination),
            gpr64(source),
        ),
        MachineInstruction::Test(lhs, rhs) => asm_test(assembler, gpr64(lhs), gpr64(rhs)),
        MachineInstruction::Compare(lhs, rhs) => asm_cmp(assembler, gpr64(lhs), gpr64(rhs)),
        _ => Ok(()),
    }
}

/// Hands an instruction that names no label to the assembler, which takes
/// it.
fn encode_plain(assembler: &mut CodeAssembler, instruction: MachineInstruction) -> (result: Result<
    (),
    iced_x86::IcedError,
>)
    requires
        plain_assembler(*old(assembler)),
        names_no_label(instruction),
        !(instruction is MoveString),
    ensures
        added(*old(assembler), *final(assembler), result, instruction),
{
    match instruction {
        MachineInstruction::Ret => asm_ret(assembler),
        MachineInstruction::Call(address) => asm_call(assembler, address),
        MachineInstruction::Push(_)
        | MachineInstruction::Pop(_)
        | MachineInstruction::Move(_, _)
        | MachineInstruction::MoveImmediate(_, _)
        | MachineInstruction::Load(_, _)
        | MachineInstruction::Store(_, _) => encode_move(assembler, instruction),
        _ => encode_arithmetic(assembler, instruction),
    }
}

/// Hands one instruction to the assembler.
///
/// The label that the instruction names, if it names one, is created with
/// those before it.  The assembler takes every instruction but the binding
/// of a label that is set already, or that follows the binding of another
/// label: it refuses that, and holds the instructions that it held.
fn encode_instruction(
    assembler: &mut CodeAssembler,
    labels: &mut Vec<iced_x86::code_asm::CodeLabel>,
    instruction: MachineInstruction,
) -> (result: Result<(), iced_x86::IcedError>)
    requires
        encodable_instruction(instruction),
        plain_assembler(*old(assembler)),
        labels_in_order(*old(assembler), old(labels)@),
    ensures
        plain_assembler(*final(assembler)),
        labels_in_order(*final(assembler), final(labels)@),
        final(labels)@.len() == spec_label_count_after(old(labels)@.len(), instruction),
        result is Err <==> instruction is Label && (set_in(
            old(labels)@,
            instruction->Label_0.0 as int,
        ) || label_waits(assembled(*old(assembler)))),
        forall|k: int|
            0 <= k < final(labels)@.len() ==> label_is_set(#[trigger] final(labels)@[k]) == (
            set_in(old(labels)@, k) || (instruction is Label && instruction->Label_0.0 == k
                && result is Ok)),
        result is Ok ==> assembled(*final(assembler)) == assembled(*old(assembler)).push(
            instruction,
        ),
        result is Err ==> assembled(*final(assembler)) == assembled(*old(assembler)),
{
    match instruction {
        MachineInstruction::Label(target) => encode_label(assembler, labels, target),
        MachineInstruction::Jump(target) => encode_jump(assembler, labels, None, target),
        MachineInstruction::Branch(condition, target) => encode_jump(
            assembler,
            labels,
            Some(condition),
            target,
        ),
        _ => encode_plain(assembler, instruction),
    }
}

/// Whether a result is what encoding gives.
///
/// An instruction that the encoder does not take is an internal error.
/// Else the result is the assembler's: an error where the assembler does
/// not accept the binding of a label or refuses to encode, and else the
/// bytes that it encodes the instructions to.
pub open spec fn encoded(
    result: Result<Vec<u8>, CodegenError>,
    instructions: Seq<MachineInstruction>,
    base_address: u64,
) -> bool {
    match spec_first_unencodable(instructions, 0) {
        Some(index) => result is Err && result->Err_0@ == spec_encodable_error(
            instructions[index],
        ),
        None => if !labels_accepted(instructions) {
            result is Err && result->Err_0@ is IcedError
        } else {
            match machine_code(instructions, base_address) {
                Some(code) => result is Ok && result->Ok_0@ == code,
                None => result is Err && result->Err_0@ is IcedError,
            }
        },
    }
}

/// Encodes instructions for code that is to run at `base_address`.
pub fn encode(instructions: &Vec<MachineInstruction>, base_address: u64) -> (result: Result<
    Vec<u8>,
    CodegenError,
>)
    ensures
        encoded(result, instructions@, base_address),
{
    check_encodable(instructions)?;
    proof {
        lemma_all_encodable(instructions@, 0);
    }
    let mut assembler = match asm_new() {
        Ok(assembler) => assembler,
        Err(error) => {
            return Err(CodegenError::IcedError(error));
        },
    };
    let mut labels: Vec<iced_x86::code_asm::CodeLabel> = Vec::new();
    let mut index: usize = 0;
    while index < instructions.len()
        invariant
            index <= instructions.len(),
            spec_first_unencodable(instructions@, 0) is None,
            forall|i: int|
                0 <= i < instructions.len() ==> encodable_instruction(#[trigger] instructions@[i]),
            forall|i: int| 0 <= i < index ==> #[trigger] label_accepted(instructions@, i),
            plain_assembler(assembler),
            labels_in_order(assembler, labels@),
            labels_track(labels@, instructions@, index as int),
            assembled(assembler) == instructions@.take(index as int),
        decreases instructions.len() - index,
    {
        let ghost held = labels@;
        let instruction = instructions[index];
        proof {
            lemma_label_accepted(held, instructions@, index as int);
        }
        match encode_instruction(&mut assembler, &mut labels, instruction) {
            Ok(()) => {},
            Err(error) => {
                assert(!label_accepted(instructions@, index as int));
                return Err(CodegenError::IcedError(error));
            },
        }
        proof {
            lemma_labels_track_step(held, labels@, instructions@, index as int);
        }
        assert(instructions@.take(index as int).push(instructions@[index as int])
            =~= instructions@.take(index + 1));
        index = index + 1;
    }
    assert(instructions@.take(index as int) =~= instructions@);
    match asm_assemble(&mut assembler, base_address) {
        Ok(code) => Ok(code),
        Err(error) => Err(CodegenError::IcedError(error)),
    }
}

/// The assembler accepts the binding of a label after the instructions
/// before it exactly where the table does not hold the label as set, and
/// the instruction before it binds no label.
proof fn lemma_label_accepted(
    labels: Seq<iced_x86::code_asm::CodeLabel>,
    instructions: Seq<MachineInstruction>,
    index: int,
)
    requires
        0 <= index < instructions.len(),
        labels_track(labels, instructions, index),
    ensures
        label_waits(instructions.take(index)) == (index > 0 && instructions[index - 1] is Label),
        instructions[index] matches MachineInstruction::Label(label) ==> (label_accepted(
            instructions,
            index,
        ) <==> !set_in(labels, label.0 as int) && !label_waits(instructions.take(index))),
{
    if index > 0 {
        assert(instructions.take(index).last() == instructions[index - 1]);
    }
    match instructions[index] {
        MachineInstruction::Label(label) => {
            assert(bound_before(instructions, index, label) == set_in(labels, label.0 as int));
        },
        _ => {},
    }
}

/// The table of labels tells what the instructions have bound after one
/// more instruction was taken.
proof fn lemma_labels_track_step(
    before: Seq<iced_x86::code_asm::CodeLabel>,
    after: Seq<iced_x86::code_asm::CodeLabel>,
    instructions: Seq<MachineInstruction>,
    index: int,
)
    requires
        0 <= index < instructions.len(),
        labels_track(before, instructions, index),
        after.len() == spec_label_count_after(before.len(), instructions[index]),
        forall|k: int|
            0 <= k < after.len() ==> label_is_set(#[trigger] after[k]) == (set_in(before, k) || (
            instructions[index] is Label && instructions[index]->Label_0.0 == k)),
    ensures
        labels_track(after, instructions, index + 1),
{
    assert forall|label: MachineLabel| #[trigger]
        bound_before(instructions, index + 1, label) == set_in(after, label.0 as int) by {
        assert(bound_before(instructions, index, label) == set_in(before, label.0 as int));
        if label.0 < after.len() {
            assert(label_is_set(after[label.0 as int]) == (set_in(before, label.0 as int) || (
            instructions[index] is Label && instructions[index]->Label_0.0 == label.0)));
        }
    }
}

/// Whether a result is what assembling a program gives.
pub open spec fn assembled_program(
    result: Result<Vec<u8>, CodegenError>,
    program: ProgramView,
    base_address: u64,
    string_addresses: Seq<u64>,
) -> bool {
    match spec_resolve_strings(program.instructions, string_addresses, 0) {
        Err(error) => result is Err && result->Err_0@ == error,
        Ok(instructions) => encoded(result, instructions, base_address),
    }
}

/// Assembles a program for the address `base_address`.
///
/// `string_addresses[i]` is the address of the boxed copy of the program's
/// string with the index `i`.  The first byte of the result is the entry of
/// the function.
pub fn assemble(program: &Program, base_address: u64, string_addresses: &Vec<u64>) -> (result:
    Result<Vec<u8>, CodegenError>)
    ensures
        assembled_program(result, program@, base_address, string_addresses@),
{
    let instructions = resolve_strings(program, string_addresses)?;
    encode(&instructions, base_address)
}

/// Code brought to a length: cut where it is longer, and filled up with
/// breakpoint instructions where it is shorter.
pub open spec fn spec_pad_code(code: Seq<u8>, length: usize) -> Seq<u8> {
    if length <= code.len() {
        code.take(length as int)
    } else {
        code + Seq::new((length - code.len()) as nat, |i: int| 0xCCu8)
    }
}

/// Brings code to the length of the memory that is to hold it.  The unused
/// tail is filled with breakpoint instructions.
pub fn pad_code(code: Vec<u8>, length: usize) -> (padded: Vec<u8>)
    ensures
        padded@ == spec_pad_code(code@, length),
{
    let mut padded = code;
    if length <= padded.len() {
        padded.truncate(length);
        assert(padded@ =~= code@.take(length as int));
    } else {
        while padded.len() < length
            invariant
                code@.len() <= padded@.len() <= length,
                padded@ == code@ + Seq::new((padded@.len() - code@.len()) as nat, |i: int| 0xCCu8),
            decreases length - padded.len(),
        {
            let ghost before = padded@;
            padded.push(0xCC);
            assert(padded@ =~= code@ + Seq::new(
                (padded@.len() - code@.len()) as nat,
                |i: int| 0xCCu8,
            ));
        }
    }
    padded
}

pub open spec fn code_length_error() -> CodegenErrorView {
    CodegenErrorView::InternalError("code longer than its memory"@)
}

/// Whether a result is code fitted to a length: code that is longer than
/// the length is refused, other code is filled up to it.
pub open spec fn fitted(result: Result<Vec<u8>, CodegenError>, code: Seq<u8>, length: usize) -> bool {
    if code.len() > length {
        result is Err && result->Err_0@ == code_length_error()
    } else {
        &&& result is Ok
        &&& result->Ok_0@.len() == length
        &&& result->Ok_0@.take(code.len() as int) == code
        &&& forall|i: int| code.len() <= i < length ==> result->Ok_0@[i] == 0xCCu8
    }
}

/// Fits code to the memory that is to hold it: the code is followed by
/// breakpoint instructions up to the length of the memory.  Code that is
/// longer than the memory is refused, and none of it is cut.
pub fn fit_code(code: Vec<u8>, length: usize) -> (result: Result<Vec<u8>, CodegenError>)
    ensures
        fitted(result, code@, length),
{
    if code.len() > length {
        return Err(CodegenError::internal_error("code longer than its memory"));
    }
    let ghost given = code@;
    let padded = pad_code(code, length);
    assert(padded@.take(given.len() as int) =~= given);
    Ok(padded)
}

} // verus!
