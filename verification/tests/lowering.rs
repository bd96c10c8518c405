use risp::compiler::error::CompilerError;
use risp::compiler::{compile, lower, CompileError, StackFrame, Symbol};
use risp::ir::{AssignmentTarget, Instruction, JumpCondition, Label, Opcode, Slot};
use risp::parser::{
    parse, ArithmeticOperator, BinaryOperator, Block, Expression, Identifier, Literal, Statement,
};
use risp::value::Value;

fn block(source: &str) -> Block {
    let (rest, token) = parse(source).expect("the source parses");
    assert_eq!(rest, source.len());
    token.value
}

fn op(destination: u64, opcode: Opcode) -> Instruction {
    Instruction::Opcode { destination: Slot(destination), opcode }
}

fn add() -> BinaryOperator {
    BinaryOperator::ArithmeticOperator(ArithmeticOperator::Add)
}

fn function_scope(parameters: &[&str]) -> StackFrame<'static> {
    let mut frame = StackFrame::new();
    for (index, parameter) in parameters.iter().enumerate() {
        frame.insert(&Identifier::new(parameter), Symbol::Argument(index));
    }
    frame
}

fn error_of(frame: StackFrame, source: &str) -> CompileError {
    lower(frame, &block(source)).1.expect_err("the lowering fails")
}

#[test]
fn an_addition_is_two_constants_and_an_operation() {
    let (lowered, result) = lower(StackFrame::new(), &block("55 + 42"));
    assert_eq!(result, Ok(Slot(2)));
    assert_eq!(
        lowered.instructions(),
        &vec![
            op(0, Opcode::Literal(Value::Integer(55))),
            op(1, Opcode::Literal(Value::Integer(42))),
            op(2, Opcode::BinaryOperator(Slot(0), add(), Slot(1))),
            op(3, Opcode::SetReturnValue(Slot(2))),
            op(4, Opcode::Return),
        ]
    );
}

#[test]
fn a_string_literal_is_a_constant() {
    let (lowered, result) = lower(StackFrame::new(), &block("\"Hello world!\""));
    assert_eq!(result, Ok(Slot(0)));
    assert_eq!(
        lowered.instructions()[0],
        op(0, Opcode::Literal(Value::String("Hello world!".to_string())))
    );
}

#[test]
fn a_variable_is_declared_written_and_read() {
    let (lowered, result) = lower(function_scope(&["x"]), &block("let r = x * x\n r"));
    assert_eq!(result, Ok(Slot(5)));
    assert_eq!(
        lowered.instructions(),
        &vec![
            op(0, Opcode::FunctionArgument(0)),
            op(1, Opcode::FunctionArgument(0)),
            op(
                2,
                Opcode::BinaryOperator(
                    Slot(0),
                    BinaryOperator::ArithmeticOperator(ArithmeticOperator::Multiply),
                    Slot(1)
                )
            ),
            op(3, Opcode::StackVariable(0)),
            Instruction::Assign(AssignmentTarget::StackVariable(0), Slot(2)),
            op(5, Opcode::StackVariable(0)),
            op(6, Opcode::SetReturnValue(Slot(5))),
            op(7, Opcode::Return),
        ]
    );
    assert_eq!(lowered.stack_slots(), 1);
    assert!(lowered.requires_stack_frame());
    assert_eq!(lowered.resolve(&Identifier::new("r")), Some(Symbol::StackVariable(0)));
}

#[test]
fn an_assignment_writes_to_its_target() {
    let (lowered, result) = lower(function_scope(&["x"]), &block("x = 1"));
    assert_eq!(result, Ok(Slot(0)));
    assert_eq!(
        lowered.instructions()[1],
        Instruction::Assign(AssignmentTarget::FunctionArgument(0), Slot(0))
    );
    let (lowered, _) = lower(StackFrame::new(), &block("let y = 1\n y = 2"));
    assert_eq!(
        lowered.instructions()[4],
        Instruction::Assign(AssignmentTarget::StackVariable(0), Slot(3))
    );
}

#[test]
fn a_return_ends_the_body() {
    let (lowered, result) = lower(StackFrame::new(), &block("return 1\n 2"));
    assert_eq!(result, Ok(Slot(0)));
    assert_eq!(
        lowered.instructions(),
        &vec![
            op(0, Opcode::Literal(Value::Integer(1))),
            op(1, Opcode::SetReturnValue(Slot(0))),
            op(2, Opcode::Return),
        ]
    );
}

#[test]
fn an_empty_body_returns_zero() {
    let (lowered, result) = lower(StackFrame::new(), &Block(vec![]));
    assert_eq!(result, Ok(Slot(0)));
    assert_eq!(
        lowered.instructions(),
        &vec![
            op(0, Opcode::Literal(Value::Integer(0))),
            op(1, Opcode::SetReturnValue(Slot(0))),
            op(2, Opcode::Return),
        ]
    );
}

#[test]
fn a_condition_jumps_between_its_branches() {
    let end = Label::new(0, "condition end");
    let next = Label::new(1, "condition next");
    let first = Label::new(2, "condition block");
    let second = Label::new(3, "condition block");
    let (lowered, result) =
        lower(function_scope(&["x", "y"]), &block("if x { 1 } else if y < 2 { 2 }"));
    assert_eq!(result, Ok(Slot(14)));
    assert_eq!(
        lowered.instructions(),
        &vec![
            op(0, Opcode::FunctionArgument(0)),
            op(1, Opcode::Jump(JumpCondition::NotZero(Slot(0)), first.clone())),
            op(2, Opcode::Jump(JumpCondition::Unconditional, next.clone())),
            Instruction::Label(first),
            op(4, Opcode::Literal(Value::Integer(1))),
            op(5, Opcode::Jump(JumpCondition::Unconditional, end.clone())),
            Instruction::Label(next),
            op(7, Opcode::FunctionArgument(1)),
            op(8, Opcode::Literal(Value::Integer(2))),
            op(9, Opcode::Jump(JumpCondition::Less(Slot(7), Slot(8)), second.clone())),
            op(10, Opcode::Jump(JumpCondition::Unconditional, end.clone())),
            Instruction::Label(second),
            op(12, Opcode::Literal(Value::Integer(2))),
            Instruction::Label(end),
            op(14, Opcode::PhiEnd(vec![Slot(4), Slot(12)])),
            op(15, Opcode::SetReturnValue(Slot(14))),
            op(16, Opcode::Return),
        ]
    );
}

#[test]
fn an_else_branch_has_no_predicate() {
    let end = Label::new(0, "condition end");
    let next = Label::new(1, "condition next");
    let first = Label::new(2, "condition block");
    let (lowered, _) = lower(function_scope(&["x"]), &block("if x { 1 } else { 0 }"));
    assert_eq!(
        lowered.instructions()[..10],
        vec![
            op(0, Opcode::FunctionArgument(0)),
            op(1, Opcode::Jump(JumpCondition::NotZero(Slot(0)), first.clone())),
            op(2, Opcode::Jump(JumpCondition::Unconditional, next.clone())),
            Instruction::Label(first),
            op(4, Opcode::Literal(Value::Integer(1))),
            op(5, Opcode::Jump(JumpCondition::Unconditional, end.clone())),
            Instruction::Label(next),
            op(7, Opcode::Literal(Value::Integer(0))),
            Instruction::Label(end),
            op(9, Opcode::PhiEnd(vec![Slot(4), Slot(7)])),
        ][..]
    );
}

#[test]
fn a_loop_tests_its_predicate_after_its_body() {
    let start = Label::new(0, "loop start");
    let test = Label::new(1, "loop test");
    let (lowered, result) = lower(function_scope(&["n"]), &block("while n { n = n - 1 }"));
    assert_eq!(result, Ok(Slot(8)));
    assert_eq!(
        lowered.instructions(),
        &vec![
            op(0, Opcode::Jump(JumpCondition::Unconditional, test.clone())),
            Instruction::Label(start.clone()),
            op(2, Opcode::FunctionArgument(0)),
            op(3, Opcode::Literal(Value::Integer(1))),
            op(
                4,
                Opcode::BinaryOperator(
                    Slot(2),
                    BinaryOperator::ArithmeticOperator(ArithmeticOperator::Subtract),
                    Slot(3)
                )
            ),
            Instruction::Assign(AssignmentTarget::FunctionArgument(0), Slot(4)),
            Instruction::Label(test),
            op(7, Opcode::FunctionArgument(0)),
            op(8, Opcode::Jump(JumpCondition::NotZero(Slot(7)), start)),
            op(9, Opcode::SetReturnValue(Slot(8))),
            op(10, Opcode::Return),
        ]
    );
}

#[test]
fn every_jump_target_is_bound_exactly_once() {
    let source = "if a { while b { if c { 1 } else if a { 2 } else { 3 } } } else { while c { 4 } }\n\
                  if b { 5 }";
    let (lowered, result) = lower(function_scope(&["a", "b", "c"]), &block(source));
    assert!(result.is_ok());
    let mut jumps = 0;
    for instruction in lowered.instructions() {
        if let Instruction::Opcode { opcode: Opcode::Jump(_, target), .. } = instruction {
            jumps += 1;
            let bindings = lowered
                .instructions()
                .iter()
                .filter(|other| matches!(other, Instruction::Label(label) if label == target))
                .count();
            assert_eq!(bindings, 1, "{:?}", target);
        }
    }
    assert_eq!(jumps, 15);
}

#[test]
fn a_call_passes_its_arguments_in_order() {
    let mut frame = function_scope(&["x"]);
    frame.insert(&Identifier::new("f"), Symbol::Function(0x1000, 2));
    let (lowered, result) = lower(frame, &block("f(x, 7)"));
    assert_eq!(result, Ok(Slot(2)));
    assert_eq!(
        lowered.instructions()[..3],
        vec![
            op(0, Opcode::FunctionArgument(0)),
            op(1, Opcode::Literal(Value::Integer(7))),
            op(2, Opcode::CallFunction(0x1000, vec![Slot(0), Slot(1)])),
        ][..]
    );
}

#[test]
fn an_undefined_name_is_an_unresolved_symbol() {
    assert_eq!(
        error_of(StackFrame::new(), "nothing"),
        CompileError::UnresolvedSymbol(Identifier::new("nothing"))
    );
    assert_eq!(
        error_of(StackFrame::new(), "nothing(1)"),
        CompileError::UnresolvedSymbol(Identifier::new("nothing"))
    );
    assert_eq!(
        error_of(StackFrame::new(), "nothing = 1"),
        CompileError::UnresolvedSymbol(Identifier::new("nothing"))
    );
}

#[test]
fn a_call_with_the_wrong_number_of_arguments_is_refused() {
    let mut frame = StackFrame::new();
    frame.insert(&Identifier::new("f"), Symbol::Function(0x1000, 2));
    assert_eq!(error_of(frame, "f(1)"), CompileError::IncorrectArity(Identifier::new("f"), 2, 1));
}

#[test]
fn what_is_not_implemented_is_refused() {
    let not_implemented = |reason: &str| CompileError::NotImplemented(reason.to_string());
    assert_eq!(error_of(StackFrame::new(), "4 / 2"), not_implemented("division"));
    assert_eq!(
        error_of(StackFrame::new(), "1 < 2"),
        not_implemented("comparison outside of a predicate")
    );
    assert_eq!(
        error_of(function_scope(&["x"]), "x(1)"),
        not_implemented("calling a symbol that is not a function")
    );
    let mut frame = StackFrame::new();
    frame.insert(&Identifier::new("f"), Symbol::Function(0x1000, 0));
    assert_eq!(error_of(frame, "f"), not_implemented("function used as a value"));
    let mut frame = StackFrame::new();
    frame.insert(&Identifier::new("f"), Symbol::Function(0x1000, 0));
    assert_eq!(error_of(frame, "f = 1"), not_implemented("assignment to a function"));
}

#[test]
fn a_function_definition_inside_a_body_has_the_value_zero() {
    let (lowered, result) = lower(StackFrame::new(), &block("def f() { 1 }"));
    assert_eq!(result, Ok(Slot(0)));
    assert_eq!(lowered.instructions()[0], op(0, Opcode::Literal(Value::Integer(0))));
}

#[test]
fn a_failed_compilation_leaves_the_scope_as_it_was() {
    let mut frame = StackFrame::new();
    let failed = compile(&mut frame, &block("let first = 1\n let second = nothing"));
    assert!(matches!(
        failed,
        Err(CompilerError::CompileError(CompileError::UnresolvedSymbol(_)))
    ));
    assert_eq!(frame.resolve(&Identifier::new("first")), None);
    assert_eq!(frame.stack_slots(), 0);

    let compiled = compile(&mut frame, &block("let first = 1\n first"));
    assert!(compiled.is_ok());
    assert_eq!(frame.resolve(&Identifier::new("first")), Some(Symbol::StackVariable(0)));
    assert_eq!(frame.stack_slots(), 1);
}

#[test]
fn a_binary_operation_is_lowered_on_its_own() {
    let mut ir_block = risp::ir::Block::new(StackFrame::new());
    let result = risp::compiler::compile_binary_operator_expression(
        &mut ir_block,
        &Expression::Literal(Literal::Integer(1)),
        &add(),
        &Expression::Literal(Literal::Integer(2)),
    );
    assert_eq!(result, Ok(Slot(2)));
    assert_eq!(ir_block.instructions().len(), 3);
    let statement = Statement::Expression(Expression::Literal(Literal::Integer(1)));
    assert_eq!(format!("{:?}", statement), "Expression(Literal(Integer(1)))");
}

#[test]
fn a_lowered_function_sets_its_value_only_before_it_returns() {
    let sources = [
        "1",
        "return 1",
        "if a { return 1 } else { return 2 }\n 3",
        "while a { if b { return a } }",
        "let t = a\n t",
    ];
    for source in sources {
        let (lowered, result) = lower(function_scope(&["a", "b"]), &block(source));
        assert!(result.is_ok());
        let instructions = lowered.instructions();
        assert!(matches!(
            instructions.last(),
            Some(Instruction::Opcode { opcode: Opcode::Return, .. })
        ));
        for (index, instruction) in instructions.iter().enumerate() {
            if let Instruction::Opcode { opcode: Opcode::SetReturnValue(_), .. } = instruction {
                assert!(matches!(
                    instructions.get(index + 1),
                    Some(Instruction::Opcode { opcode: Opcode::Return, .. })
                ));
            }
        }
    }
}

#[test]
fn every_slot_is_named_before_it_is_read() {
    let mut frame = function_scope(&["a", "b"]);
    frame.insert(&Identifier::new("f"), Symbol::Function(0x1000, 2));
    let source = "let t = f(a, b + 1)\n if t < a { t = t * 2 } else if b { return t }\n\
                  while t { t = t - 1 }\n t + a";
    let (lowered, result) = lower(frame, &block(source));
    assert!(result.is_ok());
    for (index, instruction) in lowered.instructions().iter().enumerate() {
        let read: Vec<Slot> = match instruction {
            Instruction::Label(_) => vec![],
            Instruction::Assign(_, slot) => vec![*slot],
            Instruction::Opcode { destination, opcode } => {
                assert_eq!(destination.0, index as u64);
                match opcode {
                    Opcode::SetReturnValue(slot) | Opcode::PhiStart(slot) => vec![*slot],
                    Opcode::BinaryOperator(lhs, _, rhs) => vec![*lhs, *rhs],
                    Opcode::CallFunction(_, slots) | Opcode::PhiEnd(slots) => slots.clone(),
                    Opcode::Jump(condition, _) => match condition {
                        JumpCondition::Unconditional => vec![],
                        JumpCondition::Zero(slot) | JumpCondition::NotZero(slot) => vec![*slot],
                        JumpCondition::Greater(lhs, rhs)
                        | JumpCondition::GreaterOrEqual(lhs, rhs)
                        | JumpCondition::Less(lhs, rhs)
                        | JumpCondition::LessOrEqual(lhs, rhs)
                        | JumpCondition::Equal(lhs, rhs)
                        | JumpCondition::NotEqual(lhs, rhs) => vec![*lhs, *rhs],
                    },
                    _ => vec![],
                }
            }
        };
        for slot in read {
            assert!(slot.0 < index as u64, "{:?} at {}", slot, index);
        }
    }
}
