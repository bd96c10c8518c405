use risp::compiler::StackFrame;
use risp::ir::{AssignmentTarget, Block, Instruction, JumpCondition, Label, Opcode, Slot};
use risp::parser::{ArithmeticOperator, BinaryOperator, ComparisonOperator, Identifier};
use risp::text::{decimal_string, hexadecimal_string, signed_decimal_string};
use risp::value::Value;

#[test]
fn numbers_as_text() {
    assert_eq!(decimal_string(0), "0");
    assert_eq!(decimal_string(7), "7");
    assert_eq!(decimal_string(10), "10");
    assert_eq!(decimal_string(1234567890), "1234567890");
    assert_eq!(decimal_string(u64::MAX), "18446744073709551615");
    assert_eq!(signed_decimal_string(-5), "-5");
    assert_eq!(signed_decimal_string(0), "0");
    assert_eq!(signed_decimal_string(i64::MAX), "9223372036854775807");
    assert_eq!(signed_decimal_string(i64::MIN), "-9223372036854775808");
    assert_eq!(hexadecimal_string(0), "0x0");
    assert_eq!(hexadecimal_string(255), "0xFF");
    assert_eq!(hexadecimal_string(0x7F00_1234_ABCD), "0x7F001234ABCD");
}

#[test]
fn operators_and_names_as_text() {
    let operators = [
        (BinaryOperator::ArithmeticOperator(ArithmeticOperator::Add), "+"),
        (BinaryOperator::ArithmeticOperator(ArithmeticOperator::Subtract), "-"),
        (BinaryOperator::ArithmeticOperator(ArithmeticOperator::Multiply), "*"),
        (BinaryOperator::ArithmeticOperator(ArithmeticOperator::Divide), "/"),
        (BinaryOperator::ComparisonOperator(ComparisonOperator::Equal), "=="),
        (BinaryOperator::ComparisonOperator(ComparisonOperator::NotEqual), "!="),
        (BinaryOperator::ComparisonOperator(ComparisonOperator::LessThan), "<"),
        (BinaryOperator::ComparisonOperator(ComparisonOperator::LessOrEqual), "<="),
        (BinaryOperator::ComparisonOperator(ComparisonOperator::GreaterThan), ">"),
        (BinaryOperator::ComparisonOperator(ComparisonOperator::GreaterOrEqual), ">="),
    ];
    for (operator, text) in operators {
        assert_eq!(operator.to_string(), text);
    }
    assert_eq!(Identifier::new("add_one").to_string(), "add_one");
}

#[test]
fn slots_labels_and_conditions_as_text() {
    assert_eq!(Slot(3).to_string(), "%3");
    assert_eq!(Label::new(2, "loop start").to_string(), "label 2 (loop start)");
    assert_eq!(JumpCondition::Unconditional.to_string(), "always");
    assert_eq!(JumpCondition::Zero(Slot(1)).to_string(), "%1 == 0");
    assert_eq!(JumpCondition::NotZero(Slot(1)).to_string(), "%1 != 0");
    assert_eq!(JumpCondition::Equal(Slot(1), Slot(2)).to_string(), "%1 == %2");
    assert_eq!(JumpCondition::NotEqual(Slot(1), Slot(2)).to_string(), "%1 != %2");
    assert_eq!(JumpCondition::Greater(Slot(1), Slot(2)).to_string(), "%1 > %2");
    assert_eq!(JumpCondition::GreaterOrEqual(Slot(1), Slot(2)).to_string(), "%1 >= %2");
    assert_eq!(JumpCondition::Less(Slot(1), Slot(2)).to_string(), "%1 < %2");
    assert_eq!(JumpCondition::LessOrEqual(Slot(1), Slot(2)).to_string(), "%1 <= %2");
    assert_eq!(AssignmentTarget::StackVariable(1).to_string(), "stack@1");
    assert_eq!(AssignmentTarget::FunctionArgument(0).to_string(), "arg@0");
}

#[test]
fn operations_as_text() {
    let add = BinaryOperator::ArithmeticOperator(ArithmeticOperator::Add);
    assert_eq!(Opcode::Literal(Value::Integer(-5)).to_string(), "literal -5");
    assert_eq!(Opcode::Literal(Value::String("hi".to_string())).to_string(), "literal hi");
    assert_eq!(Opcode::Literal(Value::Boolean(true)).to_string(), "literal true");
    assert_eq!(Opcode::Literal(Value::Boolean(false)).to_string(), "literal false");
    assert_eq!(Opcode::BinaryOperator(Slot(0), add, Slot(1)).to_string(), "%0 + %1");
    assert_eq!(
        Opcode::CallFunction(0x1F, vec![Slot(0), Slot(1), Slot(2)]).to_string(),
        "call @0x1F (%0, %1, %2)"
    );
    assert_eq!(Opcode::CallFunction(0x1F, vec![]).to_string(), "call @0x1F ()");
    assert_eq!(Opcode::FunctionArgument(2).to_string(), "arg 2");
    assert_eq!(Opcode::SetReturnValue(Slot(4)).to_string(), "return_value = %4");
    assert_eq!(Opcode::Return.to_string(), "return");
    assert_eq!(Opcode::StackVariable(3).to_string(), "stack@3");
    assert_eq!(
        Opcode::Jump(JumpCondition::NotZero(Slot(1)), Label::new(0, "end")).to_string(),
        "jump to label 0 (end) if %1 != 0"
    );
    assert_eq!(Opcode::PhiStart(Slot(7)).to_string(), "start phi(%7)");
    assert_eq!(Opcode::PhiEnd(vec![Slot(7)]).to_string(), "end phi(%7)");
    assert_eq!(Opcode::PhiEnd(vec![Slot(7), Slot(9)]).to_string(), "end phi(%7, %9)");
}

#[test]
fn a_block_as_text() {
    let mut block = Block::new(StackFrame::new());
    let label = block.new_label("here");
    block.push_op(Opcode::Literal(Value::Integer(1)));
    block.set_label(label);
    block.push(Instruction::Assign(AssignmentTarget::StackVariable(0), Slot(0)));
    assert_eq!(block.to_string(), "  %0 = literal 1\nlabel 0 (here):\n  stack@0 = %0\n");
    assert_eq!(Block::new(StackFrame::new()).to_string(), "");
    assert_eq!(Instruction::label(Label::new(1, "x")).to_string(), "label 1 (x):");
}
