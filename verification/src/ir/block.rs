use vstd::prelude::*;
use super::instruction::{instruction_views, Instruction, InstructionView};
use super::label::{Label, LabelView};
use super::opcode::{AssignmentTarget, Opcode, OpcodeView};
use super::slot::Slot;
use crate::compiler::stack_frame::{StackFrame, StackFrameView, Symbol};
use crate::parser::Identifier;

verus! {

/// The instructions of one function while they are being written, with the
/// scope in which the function's names are looked up.
///
/// The value of the `n`-th instruction is `Slot(n)`, and the `n`-th label
/// that is made for the block has the number `n`.
#[derive(Debug)]
pub struct Block<'a> {
    stack_frame: StackFrame<'a>,
    instructions: Vec<Instruction>,
    labels: Vec<Label>,
}

/// The mathematical content of a [`Block`].
pub struct BlockView {
    pub frame: StackFrameView,
    pub instructions: Seq<InstructionView>,
    /// The names of the labels made so far.  The number of a label is its
    /// index here.
    pub labels: Seq<Seq<char>>,
}

impl BlockView {
    /// The slot that names the value of the next instruction.
    pub open spec fn next_slot(self) -> Slot {
        Slot(self.instructions.len() as u64)
    }

    /// The block with one more instruction.
    pub open spec fn push(self, instruction: InstructionView) -> BlockView {
        BlockView { instructions: self.instructions.push(instruction), ..self }
    }

    /// The block with one more operation, whose value the next slot names.
    pub open spec fn push_op(self, opcode: OpcodeView) -> BlockView {
        self.push(InstructionView::Opcode { destination: self.next_slot(), opcode })
    }

    /// The label that is made next.
    pub open spec fn next_label(self, name: Seq<char>) -> LabelView {
        LabelView { id: self.labels.len() as u64, name }
    }

    /// The block after a label of this name was made.
    pub open spec fn with_label(self, name: Seq<char>) -> BlockView {
        BlockView { labels: self.labels.push(name), ..self }
    }

    /// Whether the label is one that was made for this block.
    pub open spec fn has_label(self, label: LabelView) -> bool {
        label.id < self.labels.len() && self.labels[label.id as int] == label.name
    }

    /// The block after the label was bound to the position of the next
    /// instruction.
    pub open spec fn set_label(self, label: LabelView) -> BlockView {
        self.push(InstructionView::Label(label))
    }

    /// The block after a stack variable was declared: the variable's slot is
    /// named, and the initial value is written to it.
    pub open spec fn insert_stack_variable(self, name: Seq<char>, initial_value: Slot) -> BlockView {
        let offset = self.frame.stack_slots;
        BlockView { frame: self.frame.declare(name), ..self }.push_op(
            OpcodeView::StackVariable(offset),
        ).push(InstructionView::Assign(AssignmentTarget::StackVariable(offset), initial_value))
    }

    /// The block after a name was read, and the slot that holds what was
    /// read.  Only arguments and stack variables can be read.
    pub open spec fn resolve_to_slot(self, name: Seq<char>) -> (BlockView, Option<Slot>) {
        match self.frame.resolve(name) {
            Some(Symbol::Argument(index)) => (
                self.push_op(OpcodeView::FunctionArgument(index)),
                Some(self.next_slot()),
            ),
            Some(Symbol::StackVariable(offset)) => (
                self.push_op(OpcodeView::StackVariable(offset)),
                Some(self.next_slot()),
            ),
            _ => (self, None),
        }
    }

    /// Whether `later` is this block after more was written to it.
    pub open spec fn extended_by(self, later: BlockView) -> bool {
        &&& self.frame.extended_by(later.frame)
        &&& self.instructions.len() <= later.instructions.len()
        &&& self.labels.len() <= later.labels.len()
    }
}

impl<'a> View for Block<'a> {
    type V = BlockView;

    closed spec fn view(&self) -> BlockView {
        BlockView {
            frame: self.stack_frame@,
            instructions: instruction_views(self.instructions@),
            labels: Seq::new(self.labels@.len(), |i: int| self.labels@[i].1@),
        }
    }
}

impl<'a> Block<'a> {
    /// An empty block for a function whose names live in `stack_frame`.
    pub fn new(stack_frame: StackFrame<'a>) -> (block: Block<'a>)
        ensures
            block@ == (BlockView {
                frame: stack_frame@,
                instructions: Seq::<InstructionView>::empty(),
                labels: Seq::<Seq<char>>::empty(),
            }),
    {
        let block = Block { stack_frame, instructions: Vec::new(), labels: Vec::new() };
        assert(block@.instructions =~= Seq::<InstructionView>::empty());
        assert(block@.labels =~= Seq::<Seq<char>>::empty());
        block
    }

    /// Gives the scope back.
    pub fn into_stack_frame(self) -> (stack_frame: StackFrame<'a>)
        ensures
            stack_frame@ == self@.frame,
    {
        self.stack_frame
    }

    pub fn push(&mut self, instruction: Instruction)
        ensures
            final(self)@ == old(self)@.push(instruction@),
            old(self)@.extended_by(final(self)@),
    {
        self.instructions.push(instruction);
        assert(final(self)@.instructions =~= old(self)@.instructions.push(instruction@));
    }

    pub fn push_op(&mut self, opcode: Opcode) -> (destination: Slot)
        ensures
            destination == old(self)@.next_slot(),
            final(self)@ == old(self)@.push_op(opcode@),
            old(self)@.extended_by(final(self)@),
    {
        let destination = self.slot();
        self.push(Instruction::opcode(destination, opcode));
        destination
    }

    /// Makes a label.  It is bound to a position by `set_label`.
    pub fn new_label(&mut self, name: &str) -> (label: Label)
        ensures
            label@ == old(self)@.next_label(name@),
            final(self)@ == old(self)@.with_label(name@),
            old(self)@.extended_by(final(self)@),
    {
        let label = Label::new(self.labels.len() as u64, name);
        self.labels.push(label.clone());
        assert(final(self)@.labels =~= old(self)@.labels.push(name@));
        label
    }

    pub fn set_label(&mut self, label: Label)
        ensures
            final(self)@ == old(self)@.set_label(label@),
            old(self)@.extended_by(final(self)@),
    {
        self.push(Instruction::label(label));
    }

    fn slot(&self) -> (slot: Slot)
        ensures
            slot == self@.next_slot(),
    {
        Slot::new(self.instructions.len() as u64)
    }

    pub fn instructions(&self) -> (instructions: &Vec<Instruction>)
        ensures
            instruction_views(instructions@) == self@.instructions,
    {
        &self.instructions
    }

    /// Whether the chain of scopes has room for one more stack variable.
    pub fn has_room(&self) -> (room: bool)
        requires
            self@.frame.wf(),
        ensures
            room == (self@.frame.total_slots() < usize::MAX),
    {
        self.stack_frame.total_stack_slots() < usize::MAX
    }

    /// Declares a stack variable and writes its initial value.  Returns the
    /// slot that names the variable.
    pub fn insert_stack_variable(&mut self, name: &Identifier, initial_value: Slot) -> (slot: Slot)
        requires
            old(self)@.frame.wf(),
            old(self)@.frame.total_slots() < usize::MAX,
        ensures
            slot == old(self)@.next_slot(),
            final(self)@ == old(self)@.insert_stack_variable(name@, initial_value),
            final(self)@.frame.wf(),
            old(self)@.extended_by(final(self)@),
    {
        let offset = match self.stack_frame.insert_stack_variable(name) {
            Symbol::StackVariable(offset) => offset,
            _ => 0,
        };
        let slot = self.push_op(Opcode::StackVariable(offset));
        self.push(Instruction::Assign(AssignmentTarget::StackVariable(offset), initial_value));
        slot
    }

    pub fn resolve(&self, identifier: &Identifier) -> (symbol: Option<Symbol>)
        requires
            self@.frame.wf(),
        ensures
            symbol == self@.frame.resolve(identifier@),
    {
        self.stack_frame.resolve(identifier)
    }

    /// Reads a name: emits the operation that fetches the argument or the
    /// stack variable that the name stands for.  `None`, and nothing
    /// emitted, when the name is not defined or stands for a function.
    pub fn resolve_to_slot(&mut self, identifier: &Identifier) -> (slot: Option<Slot>)
        requires
            old(self)@.frame.wf(),
        ensures
            (final(self)@, slot) == old(self)@.resolve_to_slot(identifier@),
            old(self)@.extended_by(final(self)@),
    {
        match self.resolve(identifier) {
            Some(Symbol::Argument(index)) => Some(self.push_op(Opcode::FunctionArgument(index))),
            Some(Symbol::StackVariable(offset)) => Some(
                self.push_op(Opcode::StackVariable(offset)),
            ),
            Some(Symbol::Function(_function, _arity)) => None,
            None => None,
        }
    }

    pub fn stack_slots(&self) -> (stack_slots: usize)
        ensures
            stack_slots == self@.frame.stack_slots,
    {
        self.stack_frame.stack_slots()
    }

    pub fn requires_stack_frame(&self) -> (required: bool)
        ensures
            required == (self@.frame.stack_slots > 0),
    {
        self.stack_slots() > 0
    }
}

} // verus!
