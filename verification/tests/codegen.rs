use iced_x86::{Decoder, DecoderOptions, Mnemonic};
use risp::codegen::x86_64::abi::{parameter_register, stack_variable};
use risp::codegen::x86_64::allocation::allocate_registers;
use risp::codegen::x86_64::codegen_state::CodegenState;
use risp::codegen::x86_64::encoder::{assemble, encode, fit_code, pad_code, resolve_strings};
use risp::codegen::x86_64::instruction::codegen_instruction;
use risp::codegen::x86_64::slot::{slot_to_register, Constant, SlotValue};
use risp::codegen::x86_64::machine::{
    BranchCondition, MachineInstruction, MachineLabel, Program, Register,
};
use risp::codegen::x86_64::register_allocation::{RegisterAllocator, ReserveMode};
use risp::codegen::{codegen, CodegenError};
use risp::compiler::error::CompilerError;
use risp::compiler::{compile, lower, StackFrame, Symbol};
use risp::ir::{AssignmentTarget, Instruction, JumpCondition, Label, Opcode, Slot};
use risp::parser::{parse, ArithmeticOperator, BinaryOperator, Identifier};
use risp::value::{Value, ValueEncodeError};

fn op(destination: u64, opcode: Opcode) -> Instruction {
    Instruction::Opcode { destination: Slot(destination), opcode }
}

fn program(frame: &mut StackFrame, source: &str) -> Result<Program, CompilerError> {
    let (rest, token) = parse(source).expect("the source parses");
    assert_eq!(rest, source.len());
    compile(frame, &token.value)
}

fn mnemonics(code: &[u8], base: u64) -> Vec<Mnemonic> {
    let mut decoder = Decoder::with_ip(64, code, base, DecoderOptions::NONE);
    let mut mnemonics = Vec::new();
    while decoder.can_decode() {
        mnemonics.push(decoder.decode().mnemonic());
    }
    mnemonics
}

#[test]
fn parameters_arrive_in_the_registers_of_the_calling_convention() {
    let registers: Vec<Register> =
        (0..6).map(|index| parameter_register(index).unwrap()).collect();
    assert_eq!(
        registers,
        vec![
            Register::Rdi,
            Register::Rsi,
            Register::Rdx,
            Register::Rcx,
            Register::R8,
            Register::R9
        ]
    );
    assert!(matches!(
        parameter_register(6),
        Err(CodegenError::NotImplemented(reason)) if reason == "functions with arity greater than 6"
    ));
}

#[test]
fn stack_slots_lie_below_the_frame_pointer() {
    assert_eq!(stack_variable(0).unwrap(), -8);
    assert_eq!(stack_variable(1).unwrap(), -9);
    assert_eq!(stack_variable(0x7FFF_FFF8).unwrap(), i32::MIN);
    assert!(matches!(
        stack_variable(0x7FFF_FFF9),
        Err(CodegenError::NotImplemented(reason)) if reason == "stack frame too large"
    ));
}

#[test]
fn the_allocator_forces_and_draws_registers() {
    let instructions = vec![
        op(0, Opcode::Literal(Value::Integer(1))),
        op(1, Opcode::Literal(Value::Integer(2))),
        op(2, Opcode::Literal(Value::Integer(3))),
        op(
            3,
            Opcode::BinaryOperator(
                Slot(1),
                BinaryOperator::ArithmeticOperator(ArithmeticOperator::Multiply),
                Slot(2),
            ),
        ),
        op(
            4,
            Opcode::BinaryOperator(
                Slot(0),
                BinaryOperator::ArithmeticOperator(ArithmeticOperator::Add),
                Slot(3),
            ),
        ),
        op(5, Opcode::SetReturnValue(Slot(4))),
        op(6, Opcode::Return),
    ];
    let registers = allocate_registers(&instructions).unwrap();
    assert_eq!(registers.len(), 5);
    assert_eq!(registers[&4], Register::Rax);
    assert_eq!(registers[&0], Register::Rax);
    assert_eq!(registers[&3], Register::R11);
    assert_eq!(registers[&1], Register::R11);
    assert_eq!(registers[&2], Register::R10);
}

#[test]
fn the_allocator_gives_call_arguments_their_parameter_registers() {
    let instructions = vec![
        op(0, Opcode::Literal(Value::Integer(1))),
        op(1, Opcode::Literal(Value::Integer(2))),
        op(2, Opcode::CallFunction(0x1000, vec![Slot(0), Slot(1)])),
        op(3, Opcode::PhiStart(Slot(2))),
        op(4, Opcode::PhiEnd(vec![Slot(2), Slot(3)])),
        Instruction::Assign(AssignmentTarget::FunctionArgument(0), Slot(4)),
        op(6, Opcode::Jump(JumpCondition::Zero(Slot(4)), Label::new(0, "end"))),
        Instruction::Label(Label::new(0, "end")),
    ];
    let registers = allocate_registers(&instructions).unwrap();
    assert_eq!(registers[&0], Register::Rdi);
    assert_eq!(registers[&1], Register::Rsi);
    assert_eq!(registers[&4], Register::R11);
    assert_eq!(registers[&2], Register::R11);
    assert_eq!(registers[&3], Register::R11);
}

#[test]
fn every_slot_that_is_read_has_a_register() {
    let mut frame = StackFrame::new();
    frame.insert(&Identifier::new("a"), Symbol::Argument(0));
    frame.insert(&Identifier::new("f"), Symbol::Function(0x1000, 2));
    let source = "let t = a + 1\n if t < a { t = f(t, a) } else { t = 2 }\n t * 3";
    let (rest, token) = parse(source).unwrap();
    assert_eq!(rest, source.len());
    let (lowered, result) = lower(frame, &token.value);
    assert!(result.is_ok());
    let registers = allocate_registers(lowered.instructions()).unwrap();
    for instruction in lowered.instructions() {
        let read: Vec<Slot> = match instruction {
            Instruction::Label(_) => vec![],
            Instruction::Assign(_, slot) => vec![*slot],
            Instruction::Opcode { opcode, .. } => match opcode {
                Opcode::SetReturnValue(slot) | Opcode::PhiStart(slot) => vec![*slot],
                Opcode::BinaryOperator(lhs, _, rhs) => vec![*lhs, *rhs],
                Opcode::CallFunction(_, slots) | Opcode::PhiEnd(slots) => slots.clone(),
                Opcode::Jump(condition, _) => match condition {
                    JumpCondition::Unconditional => vec![],
                    JumpCondition::Zero(slot) | JumpCondition::NotZero(slot) => vec![*slot],
                    JumpCondition::Greater(lhs, rhs)
                    | JumpCondition::GreaterOrEqual(lhs, rhs)
                    | JumpCondition::Less(lhs, rhs)
                    | JumpCondition::LessOrEqual(lhs, rhs)
                    | JumpCondition::Equal(lhs, rhs)
                    | JumpCondition::NotEqual(lhs, rhs) => vec![*lhs, *rhs],
                },
                _ => vec![],
            },
        };
        for slot in read {
            assert!(registers.contains_key(&slot.0), "{:?}", slot);
        }
    }
}

#[test]
fn more_than_six_arguments_are_not_implemented() {
    let instructions = vec![op(0, Opcode::CallFunction(0x1000, vec![Slot(9); 7]))];
    assert!(matches!(
        allocate_registers(&instructions),
        Err(CodegenError::NotImplemented(reason)) if reason == "functions with arity greater than 6"
    ));
    let mut frame = StackFrame::new();
    frame.insert(&Identifier::new("f"), Symbol::Function(0x1000, 7));
    assert!(matches!(
        program(&mut frame, "f(1, 2, 3, 4, 5, 6, 7)"),
        Err(CompilerError::CodegenError(CodegenError::NotImplemented(reason)))
            if reason == "functions with arity greater than 6"
    ));
    let mut frame = StackFrame::new();
    frame.insert(&Identifier::new("g"), Symbol::Function(0x1000, 6));
    assert!(program(&mut frame, "g(1, 2, 3, 4, 5, 6)").is_ok());
}

#[test]
fn a_fifth_register_would_need_spilling() {
    let mut instructions = Vec::new();
    for slot in 0..4 {
        instructions.push(Instruction::Assign(AssignmentTarget::StackVariable(0), Slot(slot)));
    }
    assert_eq!(allocate_registers(&instructions).unwrap().len(), 4);
    instructions.push(Instruction::Assign(AssignmentTarget::StackVariable(0), Slot(4)));
    assert!(matches!(
        allocate_registers(&instructions),
        Err(CodegenError::NotImplemented(reason)) if reason == "register spilling"
    ));
}

#[test]
fn an_operation_whose_result_nothing_uses_is_an_internal_error() {
    let mut frame = StackFrame::new();
    assert!(matches!(
        program(&mut frame, "1 + 2\n 3"),
        Err(CompilerError::CodegenError(CodegenError::InternalError(reason)))
            if reason == "destination register not yet set"
    ));
    let instructions = vec![op(0, Opcode::PhiStart(Slot(1)))];
    assert!(matches!(
        allocate_registers(&instructions),
        Err(CodegenError::InternalError(reason)) if reason == "destination register not yet set"
    ));
}

#[test]
fn the_code_of_an_addition() {
    let mut frame = StackFrame::new();
    let compiled = program(&mut frame, "55 + 42").unwrap();
    assert_eq!(
        compiled.instructions,
        vec![
            MachineInstruction::MoveImmediate(Register::Rax, 55),
            MachineInstruction::MoveImmediate(Register::R11, 42),
            MachineInstruction::Add(Register::Rax, Register::R11),
            MachineInstruction::Jump(MachineLabel(0)),
            MachineInstruction::Label(MachineLabel(0)),
            MachineInstruction::Ret,
        ]
    );
    assert!(compiled.strings.is_empty());
}

#[test]
fn the_prelude_and_the_epilogue_are_a_pair() {
    let mut frame = StackFrame::new();
    frame.insert(&Identifier::new("x"), Symbol::Argument(0));
    let compiled = program(&mut frame, "let r = x * x\n let s = r\n s").unwrap();
    let code = &compiled.instructions;
    assert_eq!(
        code[..3],
        [
            MachineInstruction::Push(Register::Rbp),
            MachineInstruction::Move(Register::Rbp, Register::Rsp),
            MachineInstruction::SubtractImmediate(Register::Rsp, 16),
        ]
    );
    assert_eq!(
        code[code.len() - 4..],
        [
            MachineInstruction::Label(MachineLabel(0)),
            MachineInstruction::Move(Register::Rsp, Register::Rbp),
            MachineInstruction::Pop(Register::Rbp),
            MachineInstruction::Ret,
        ]
    );
    assert!(code.contains(&MachineInstruction::Store(-8, Register::Rdi)));
    assert!(code.contains(&MachineInstruction::Load(Register::Rax, -9)));

    let mut frame = StackFrame::new();
    let plain = program(&mut frame, "1").unwrap();
    assert!(!plain.instructions.contains(&MachineInstruction::Push(Register::Rbp)));
    assert!(!plain.instructions.contains(&MachineInstruction::Pop(Register::Rbp)));
    assert_eq!(plain.instructions.last(), Some(&MachineInstruction::Ret));
}

#[test]
fn the_code_of_jumps_and_calls() {
    let target = Label::new(5, "target");
    let instructions = vec![
        op(0, Opcode::FunctionArgument(0)),
        op(1, Opcode::FunctionArgument(1)),
        op(2, Opcode::Jump(JumpCondition::GreaterOrEqual(Slot(0), Slot(1)), target.clone())),
        op(3, Opcode::Jump(JumpCondition::Zero(Slot(0)), Label::new(6, "other"))),
        op(4, Opcode::CallFunction(0x2000, vec![Slot(0)])),
        Instruction::Assign(AssignmentTarget::FunctionArgument(1), Slot(4)),
        Instruction::Label(target),
        op(7, Opcode::SetReturnValue(Slot(1))),
        op(8, Opcode::Return),
    ];
    let mut block = risp::ir::Block::new(StackFrame::new());
    for instruction in instructions {
        block.push(instruction);
    }
    let compiled = codegen(&block).unwrap();
    assert_eq!(
        compiled.instructions,
        vec![
            MachineInstruction::Compare(Register::Rdi, Register::Rsi),
            MachineInstruction::Branch(BranchCondition::GreaterOrEqual, MachineLabel(1)),
            MachineInstruction::Test(Register::Rdi, Register::Rdi),
            MachineInstruction::Branch(BranchCondition::Equal, MachineLabel(2)),
            MachineInstruction::Call(0x2000),
            MachineInstruction::Move(Register::Rsi, Register::Rax),
            MachineInstruction::Label(MachineLabel(1)),
            MachineInstruction::Move(Register::Rax, Register::Rsi),
            MachineInstruction::Jump(MachineLabel(0)),
            MachineInstruction::Label(MachineLabel(0)),
            MachineInstruction::Ret,
        ]
    );
}

#[test]
fn what_the_emitter_does_not_implement() {
    let divide = |operator| {
        let mut block = risp::ir::Block::new(StackFrame::new());
        block.push_op(Opcode::FunctionArgument(0));
        block.push_op(Opcode::FunctionArgument(1));
        block.push_op(Opcode::BinaryOperator(Slot(0), operator, Slot(1)));
        block.push_op(Opcode::SetReturnValue(Slot(2)));
        block.push_op(Opcode::Return);
        codegen(&block)
    };
    assert!(matches!(
        divide(BinaryOperator::ArithmeticOperator(ArithmeticOperator::Divide)),
        Err(CodegenError::NotImplemented(reason)) if reason == "division operator"
    ));
    assert!(matches!(
        divide(BinaryOperator::ComparisonOperator(risp::parser::ComparisonOperator::Equal)),
        Err(CodegenError::NotImplemented(reason)) if reason == "comparison operators in expressions"
    ));
    let mut block = risp::ir::Block::new(StackFrame::new());
    block.push_op(Opcode::SetReturnValue(Slot(9)));
    block.push_op(Opcode::Return);
    assert!(matches!(
        codegen(&block),
        Err(CodegenError::InternalError(reason)) if reason == "slot has no value"
    ));
    let mut block = risp::ir::Block::new(StackFrame::new());
    block.push_op(Opcode::Literal(Value::Integer(1)));
    block.push_op(Opcode::SetReturnValue(Slot(0)));
    assert!(matches!(
        codegen(&block),
        Err(CodegenError::InternalError(reason)) if reason == "return value without a return"
    ));
    let mut block = risp::ir::Block::new(StackFrame::new());
    block.push_op(Opcode::Literal(Value::Integer(1)));
    block.push_op(Opcode::SetReturnValue(Slot(0)));
    block.push_op(Opcode::Literal(Value::Integer(2)));
    block.push_op(Opcode::Return);
    assert!(matches!(
        codegen(&block),
        Err(CodegenError::InternalError(reason)) if reason == "return value without a return"
    ));
    let mut block = risp::ir::Block::new(StackFrame::new());
    block.push_op(Opcode::StackVariable(0));
    block.push_op(Opcode::PhiEnd(vec![]));
    block.push(Instruction::Assign(AssignmentTarget::StackVariable(0), Slot(0)));
    block.push_op(Opcode::Literal(Value::Integer(1)));
    block.push_op(Opcode::SetReturnValue(Slot(3)));
    block.push_op(Opcode::Return);
    let compiled = codegen(&block).unwrap();
    assert_eq!(
        compiled.instructions[..3],
        [
            MachineInstruction::Load(Register::Rax, -8),
            MachineInstruction::Store(-8, Register::Rax),
            MachineInstruction::MoveImmediate(Register::Rax, 1),
        ]
    );
}

#[test]
fn a_literal_that_does_not_fit_is_an_encode_error() {
    let mut frame = StackFrame::new();
    assert!(matches!(
        program(&mut frame, "9007199254740992"),
        Err(CompilerError::CodegenError(CodegenError::ValueEncodeError(
            ValueEncodeError::Overflow
        )))
    ));
    assert!(program(&mut frame, "4503599627370495").is_ok());
}

#[test]
fn a_string_constant_is_loaded_from_its_encoded_address() {
    let mut frame = StackFrame::new();
    let compiled = program(&mut frame, "\"Hello world!\"").unwrap();
    assert_eq!(compiled.strings, vec!["Hello world!".to_string()]);
    assert_eq!(compiled.instructions[0], MachineInstruction::MoveString(Register::Rax, 0));
    let resolved = resolve_strings(&compiled, &vec![0x1234]).unwrap();
    assert_eq!(
        resolved[0],
        MachineInstruction::MoveImmediate(Register::Rax, (1 << 53) | 0x1234)
    );
    assert_eq!(resolved[1..], compiled.instructions[1..]);
    assert!(matches!(
        resolve_strings(&compiled, &vec![]),
        Err(CodegenError::InternalError(reason)) if reason == "string constant without an address"
    ));
    assert!(matches!(
        assemble(&compiled, 0x1000, &vec![1 << 53]),
        Err(CodegenError::ValueEncodeError(ValueEncodeError::Overflow))
    ));
}

#[test]
fn the_encoder_refuses_what_it_cannot_encode() {
    assert!(matches!(
        encode(&vec![MachineInstruction::MoveString(Register::Rax, 0)], 0),
        Err(CodegenError::InternalError(reason)) if reason == "string constant not resolved"
    ));
    assert!(matches!(
        encode(&vec![MachineInstruction::Jump(MachineLabel(usize::MAX))], 0),
        Err(CodegenError::InternalError(reason)) if reason == "label out of range"
    ));
    assert!(matches!(
        encode(
            &vec![
                MachineInstruction::Label(MachineLabel(0)),
                MachineInstruction::Label(MachineLabel(1)),
                MachineInstruction::Ret
            ],
            0
        ),
        Err(CodegenError::IcedError(_))
    ));
}

#[test]
fn the_encoder_writes_the_bytes_of_each_instruction() {
    let one = |instruction: MachineInstruction| encode(&vec![instruction], 0x1000).unwrap();
    assert_eq!(one(MachineInstruction::Ret), vec![0xC3]);
    assert_eq!(one(MachineInstruction::Push(Register::Rbp)), vec![0x55]);
    assert_eq!(one(MachineInstruction::Pop(Register::Rbp)), vec![0x5D]);
    assert_eq!(one(MachineInstruction::Move(Register::Rbp, Register::Rsp)), vec![0x48, 0x89, 0xE5]);
    assert_eq!(one(MachineInstruction::Move(Register::Rax, Register::R11)), vec![0x4C, 0x89, 0xD8]);
    assert_eq!(
        one(MachineInstruction::MoveImmediate(Register::Rax, 0x1122_3344_5566_7788)),
        vec![0x48, 0xB8, 0x88, 0x77, 0x66, 0x55, 0x44, 0x33, 0x22, 0x11]
    );
    assert_eq!(one(MachineInstruction::Load(Register::Rax, -8)), vec![0x48, 0x8B, 0x45, 0xF8]);
    assert_eq!(one(MachineInstruction::Store(-8, Register::Rdi)), vec![0x48, 0x89, 0x7D, 0xF8]);
    assert_eq!(one(MachineInstruction::Add(Register::Rax, Register::R11)), vec![0x4C, 0x01, 0xD8]);
    assert_eq!(one(MachineInstruction::Subtract(Register::Rdi, Register::Rsi)), vec![0x48, 0x29, 0xF7]);
    assert_eq!(
        one(MachineInstruction::SubtractImmediate(Register::Rsp, 16)),
        vec![0x48, 0x83, 0xEC, 0x10]
    );
    assert_eq!(
        one(MachineInstruction::Multiply(Register::Rdi, Register::Rdi)),
        vec![0x48, 0x0F, 0xAF, 0xFF]
    );
    assert_eq!(one(MachineInstruction::Test(Register::Rdi, Register::Rdi)), vec![0x48, 0x85, 0xFF]);
    assert_eq!(one(MachineInstruction::Compare(Register::Rdi, Register::Rsi)), vec![0x48, 0x39, 0xF7]);
    assert_eq!(one(MachineInstruction::Call(0x1005)), vec![0xE8, 0, 0, 0, 0]);
}

#[test]
fn the_encoder_resolves_labels() {
    let conditions = [
        (BranchCondition::Equal, Mnemonic::Je),
        (BranchCondition::NotEqual, Mnemonic::Jne),
        (BranchCondition::Less, Mnemonic::Jl),
        (BranchCondition::LessOrEqual, Mnemonic::Jle),
        (BranchCondition::Greater, Mnemonic::Jg),
        (BranchCondition::GreaterOrEqual, Mnemonic::Jge),
    ];
    for (condition, mnemonic) in conditions {
        let code = encode(
            &vec![
                MachineInstruction::Branch(condition, MachineLabel(3)),
                MachineInstruction::Jump(MachineLabel(0)),
                MachineInstruction::Label(MachineLabel(3)),
                MachineInstruction::Ret,
                MachineInstruction::Label(MachineLabel(0)),
                MachineInstruction::Ret,
            ],
            0x4000,
        )
        .unwrap();
        assert_eq!(mnemonics(&code, 0x4000), vec![mnemonic, Mnemonic::Jmp, Mnemonic::Ret, Mnemonic::Ret]);
        let mut decoder = Decoder::with_ip(64, &code, 0x4000, DecoderOptions::NONE);
        let branch = decoder.decode();
        let jump = decoder.decode();
        assert_eq!(branch.near_branch_target(), jump.next_ip());
        assert_eq!(jump.near_branch_target(), jump.next_ip() + 1);
    }
}

#[test]
fn code_is_padded_with_breakpoints() {
    assert_eq!(pad_code(vec![0xC3], 4), vec![0xC3, 0xCC, 0xCC, 0xCC]);
    assert_eq!(pad_code(vec![1, 2, 3], 2), vec![1, 2]);
    assert_eq!(pad_code(vec![1, 2, 3], 3), vec![1, 2, 3]);
    assert_eq!(pad_code(vec![], 0), Vec::<u8>::new());
}

#[test]
fn code_that_is_longer_than_its_memory_is_refused() {
    assert_eq!(fit_code(vec![0xC3], 4).unwrap(), vec![0xC3, 0xCC, 0xCC, 0xCC]);
    assert_eq!(fit_code(vec![1, 2, 3], 3).unwrap(), vec![1, 2, 3]);
    assert_eq!(fit_code(vec![], 0).unwrap(), Vec::<u8>::new());
    assert!(matches!(
        fit_code(vec![1, 2, 3], 2),
        Err(CodegenError::InternalError(reason)) if reason == "code longer than its memory"
    ));
    assert!(matches!(fit_code(vec![0xC3], 0), Err(CodegenError::InternalError(_))));
}

#[test]
fn the_joins_of_branches_emit_no_code() {
    let mut state = CodegenState::new();
    state.slot_values.insert(0, SlotValue::Literal(Constant::Integer(7)));
    state.slot_values.insert(1, SlotValue::StackOffset(0));
    state.slot_values.insert(2, SlotValue::Register(Register::R10));
    let mut registers = std::collections::HashMap::new();
    registers.insert(0, Register::R11);
    registers.insert(1, Register::R10);
    let mut program = Program::new();
    let epilogue = MachineLabel(0);
    for slot in [0, 1, 2, 9] {
        let start = op(3, Opcode::PhiStart(Slot(slot)));
        assert!(matches!(
            codegen_instruction(&mut state, &registers, &mut program, &start, &epilogue),
            Ok(())
        ));
        assert!(program.instructions.is_empty());
        assert!(program.strings.is_empty());
    }
    let end = op(4, Opcode::PhiEnd(vec![Slot(0), Slot(1)]));
    assert!(matches!(
        codegen_instruction(&mut state, &registers, &mut program, &end, &epilogue),
        Ok(())
    ));
    assert!(program.instructions.is_empty());
    assert_eq!(state.slot_values.get(&4), Some(&SlotValue::Phi));
    assert_eq!(state.slot_values.get(&3), None);
}

#[test]
fn a_slot_that_cannot_be_read_leaves_the_program_as_it_was() {
    let mut state = CodegenState::new();
    state.slot_values.insert(0, SlotValue::Literal(Constant::Integer(7)));
    state.slot_values.insert(1, SlotValue::StackOffset(2));
    state.slot_values.insert(2, SlotValue::FunctionArgument(6));
    state.slot_values.insert(3, SlotValue::Literal(Constant::Integer(1 << 60)));
    state.slot_values.insert(4, SlotValue::Phi);
    let mut registers = std::collections::HashMap::new();
    registers.insert(3, Register::R11);
    let mut program = Program::new();
    program.emit(MachineInstruction::Push(Register::Rbp));
    let before = program.instructions.clone();

    assert!(matches!(
        slot_to_register(&state, &registers, &mut program, &Slot(8)),
        Err(CodegenError::InternalError(reason)) if reason == "slot has no value"
    ));
    assert_eq!(program.instructions, before);
    for slot in [0, 1, 4] {
        assert!(matches!(
            slot_to_register(&state, &registers, &mut program, &Slot(slot)),
            Err(CodegenError::InternalError(reason)) if reason == "no register mapped for slot"
        ));
        assert_eq!(program.instructions, before);
    }
    assert!(matches!(
        slot_to_register(&state, &registers, &mut program, &Slot(2)),
        Err(CodegenError::NotImplemented(_))
    ));
    assert_eq!(program.instructions, before);
    assert!(matches!(
        slot_to_register(&state, &registers, &mut program, &Slot(3)),
        Err(CodegenError::ValueEncodeError(ValueEncodeError::Overflow))
    ));
    assert_eq!(program.instructions, before);
    assert!(program.strings.is_empty());

    registers.insert(0, Register::R10);
    assert!(matches!(
        slot_to_register(&state, &registers, &mut program, &Slot(0)),
        Ok(Register::R10)
    ));
    assert_eq!(
        program.instructions,
        vec![
            MachineInstruction::Push(Register::Rbp),
            MachineInstruction::MoveImmediate(Register::R10, 7),
        ]
    );
}

#[test]
fn the_assembler_refuses_a_label_that_is_bound_twice_or_beside_another() {
    let ret = MachineInstruction::Ret;
    let label = |number| MachineInstruction::Label(MachineLabel(number));
    assert!(encode(&vec![label(0), ret, label(1), ret], 0x4000).is_ok());
    assert!(matches!(
        encode(&vec![label(0), ret, label(0), ret], 0x4000),
        Err(CodegenError::IcedError(_))
    ));
    assert!(matches!(
        encode(&vec![label(0), label(1), ret], 0x4000),
        Err(CodegenError::IcedError(_))
    ));
    assert!(matches!(encode(&vec![ret, label(0)], 0x4000), Err(CodegenError::IcedError(_))));
    assert_eq!(encode(&vec![], 0x4000).unwrap(), Vec::<u8>::new());
}

#[test]
fn registers_are_reserved_and_freed() {
    let mut allocator = RegisterAllocator::new();
    assert!(matches!(allocator.reserve_register(), Ok(Register::R8)));
    assert!(matches!(allocator.reserve_register(), Ok(Register::R9)));
    assert!(matches!(
        allocator.reserve_specific_register(Register::R8, ReserveMode::DenyReuse),
        Err(CodegenError::RegisterNotAvailable(Register::R8))
    ));
    assert!(matches!(
        allocator.reserve_specific_register(Register::R8, ReserveMode::AllowReuse),
        Ok(Register::R8)
    ));
    assert!(matches!(
        allocator.reserve_specific_register(Register::Rax, ReserveMode::DenyReuse),
        Ok(Register::Rax)
    ));
    allocator.free_register(&Register::R8);
    assert!(matches!(allocator.reserve_register(), Ok(Register::R8)));
    assert!(matches!(allocator.reserve_register(), Ok(Register::R10)));
    assert!(matches!(allocator.reserve_register(), Ok(Register::R11)));
    assert!(matches!(
        allocator.reserve_register(),
        Err(CodegenError::NotImplemented(reason)) if reason == "register spilling"
    ));
}

#[test]
fn every_register_is_encoded_as_itself() {
    let registers = [
        (Register::Rax, vec![0x50]),
        (Register::Rcx, vec![0x51]),
        (Register::Rdx, vec![0x52]),
        (Register::Rsp, vec![0x54]),
        (Register::Rbp, vec![0x55]),
        (Register::Rsi, vec![0x56]),
        (Register::Rdi, vec![0x57]),
        (Register::R8, vec![0x41, 0x50]),
        (Register::R9, vec![0x41, 0x51]),
        (Register::R10, vec![0x41, 0x52]),
        (Register::R11, vec![0x41, 0x53]),
    ];
    for (register, bytes) in registers {
        assert_eq!(encode(&vec![MachineInstruction::Push(register)], 0).unwrap(), bytes);
    }
}
