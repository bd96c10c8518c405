use risp::compiler::{StackFrame, Symbol};
use risp::ir::{Block, Instruction, Label, Opcode, Slot};
use risp::parser::Identifier;

#[test]
fn a_name_resolves_in_the_scope_that_defines_it() {
    let mut frame = StackFrame::new();
    assert_eq!(frame.resolve(&Identifier::new("x")), None);
    frame.insert(&Identifier::new("x"), Symbol::Argument(0));
    frame.insert(&Identifier::new("f"), Symbol::Function(0x4000, 3));
    assert_eq!(frame.resolve(&Identifier::new("x")), Some(Symbol::Argument(0)));
    assert_eq!(frame.resolve(&Identifier::new("f")), Some(Symbol::Function(0x4000, 3)));
    assert_eq!(frame.resolve(&Identifier::new("y")), None);
}

#[test]
fn a_later_definition_hides_an_earlier_one() {
    let mut frame = StackFrame::new();
    frame.insert(&Identifier::new("x"), Symbol::Argument(0));
    frame.insert(&Identifier::new("x"), Symbol::Argument(4));
    assert_eq!(frame.resolve(&Identifier::new("x")), Some(Symbol::Argument(4)));
    let mut inner = frame.push();
    assert_eq!(inner.resolve(&Identifier::new("x")), Some(Symbol::Argument(4)));
    inner.insert(&Identifier::new("x"), Symbol::Argument(1));
    assert_eq!(inner.resolve(&Identifier::new("x")), Some(Symbol::Argument(1)));
}

#[test]
fn stack_variables_take_the_next_slot() {
    let mut frame = StackFrame::new();
    assert_eq!(frame.insert_stack_variable(&Identifier::new("a")), Symbol::StackVariable(0));
    assert_eq!(frame.insert_stack_variable(&Identifier::new("b")), Symbol::StackVariable(1));
    assert_eq!(frame.stack_slots(), 2);
    assert_eq!(frame.total_stack_slots(), 2);
    assert_eq!(frame.resolve(&Identifier::new("b")), Some(Symbol::StackVariable(1)));
}

#[test]
fn offsets_count_the_slots_of_the_scopes_between() {
    let mut outer = StackFrame::new();
    outer.insert_stack_variable(&Identifier::new("a"));
    outer.insert_stack_variable(&Identifier::new("b"));
    let mut middle = outer.push();
    middle.insert_stack_variable(&Identifier::new("c"));
    let mut inner = middle.push();
    inner.insert_stack_variable(&Identifier::new("d"));
    inner.insert_stack_variable(&Identifier::new("e"));
    assert_eq!(inner.stack_slots(), 2);
    assert_eq!(inner.total_stack_slots(), 5);
    assert_eq!(inner.resolve(&Identifier::new("e")), Some(Symbol::StackVariable(1)));
    assert_eq!(inner.resolve(&Identifier::new("c")), Some(Symbol::StackVariable(2)));
    assert_eq!(inner.resolve(&Identifier::new("b")), Some(Symbol::StackVariable(4)));
    assert_eq!(inner.resolve_with_offset(&Identifier::new("b"), 10), Some(Symbol::StackVariable(14)));
    assert_eq!(middle.resolve(&Identifier::new("a")), Some(Symbol::StackVariable(1)));
}

#[test]
fn a_block_names_values_after_their_instructions() {
    let mut block = Block::new(StackFrame::new());
    assert_eq!(block.push_op(Opcode::Return), Slot::new(0));
    let label = block.new_label("here");
    assert_eq!(label, Label::new(0, "here"));
    assert_eq!(block.new_label("there"), Label(1, "there".to_string()));
    block.set_label(label.clone());
    block.push(Instruction::label(Label::new(1, "there")));
    assert_eq!(block.push_op(Opcode::PhiStart(Slot(0))), Slot(3));
    assert_eq!(block.instructions()[1], Instruction::Label(label));
    assert_eq!(
        block.instructions()[3],
        Instruction::opcode(Slot(3), Opcode::PhiStart(Slot::new(0)))
    );
    assert_eq!(Slot::new(7).id(), 7);
    assert!(!block.requires_stack_frame());
}

#[test]
fn reading_a_name_emits_the_operation_that_fetches_it() {
    let mut frame = StackFrame::new();
    frame.insert(&Identifier::new("x"), Symbol::Argument(2));
    frame.insert(&Identifier::new("f"), Symbol::Function(0x4000, 0));
    let mut block = Block::new(frame);
    assert_eq!(block.resolve_to_slot(&Identifier::new("x")), Some(Slot(0)));
    assert_eq!(block.resolve_to_slot(&Identifier::new("f")), None);
    assert_eq!(block.resolve_to_slot(&Identifier::new("y")), None);
    assert!(block.has_room());
    assert_eq!(block.insert_stack_variable(&Identifier::new("y"), Slot(0)), Slot(1));
    assert_eq!(block.resolve_to_slot(&Identifier::new("y")), Some(Slot(3)));
    assert_eq!(block.instructions().len(), 4);
    let frame = block.into_stack_frame();
    assert_eq!(frame.stack_slots(), 1);
}
