use vstd::prelude::*;
use super::label::{Label, LabelView};
use super::opcode::{AssignmentTarget, Opcode, OpcodeView};
use super::slot::Slot;

verus! {

#[derive(Debug, PartialEq)]
pub enum Instruction {
    /// Marks the position that jumps to the label continue at.
    Label(Label),
    /// Performs the operation and names its value `destination`.
    Opcode { destination: Slot, opcode: Opcode },
    /// Writes the slot to a stack slot or a parameter register.
    Assign(AssignmentTarget, Slot),
}

pub enum InstructionView {
    Label(LabelView),
    Opcode { destination: Slot, opcode: OpcodeView },
    Assign(AssignmentTarget, Slot),
}

impl View for Instruction {
    type V = InstructionView;

    open spec fn view(&self) -> InstructionView {
        match self {
            Instruction::Label(label) => InstructionView::Label(label@),
            Instruction::Opcode { destination, opcode } => InstructionView::Opcode {
                destination: *destination,
                opcode: opcode@,
            },
            Instruction::Assign(target, slot) => InstructionView::Assign(*target, *slot),
        }
    }
}

impl InstructionView {
    /// The slots that the instruction reads.
    pub open spec fn inputs(self) -> Seq<Slot> {
        match self {
            InstructionView::Label(_) => seq![],
            InstructionView::Opcode { opcode, .. } => opcode.inputs(),
            InstructionView::Assign(_, slot) => seq![slot],
        }
    }
}

impl Instruction {
    pub fn opcode(destination: Slot, opcode: Opcode) -> (instruction: Instruction)
        ensures
            instruction == (Instruction::Opcode { destination, opcode }),
    {
        Instruction::Opcode { destination, opcode }
    }

    pub fn label(label: Label) -> (instruction: Instruction)
        ensures
            instruction == Instruction::Label(label),
    {
        Instruction::Label(label)
    }
}

/// The views of a list of instructions, in order.
pub open spec fn instruction_views(instructions: Seq<Instruction>) -> Seq<InstructionView> {
    Seq::new(instructions.len(), |i: int| instructions[i]@)
}

} // verus!
