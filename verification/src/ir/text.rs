//! The instructions as text, for the human reader.

use vstd::prelude::*;
use vstd::string::StringExecFns;
use super::block::Block;
use super::instruction::{Instruction, InstructionView};
use super::jump_condition::JumpCondition;
use super::label::{Label, LabelView};
use super::opcode::{AssignmentTarget, Opcode, OpcodeView};
use super::slot::Slot;
use crate::text::{
    decimal, decimal_string, hexadecimal, hexadecimal_string, signed_decimal,
    signed_decimal_string,
};
use crate::value::{Value, ValueView};

verus! {

impl Slot {
    /// `%` and the slot's number.
    pub open spec fn text(self) -> Seq<char> {
        "%"@ + decimal(self.0 as nat)
    }

    pub fn to_string(&self) -> (text: String)
        ensures
            text@ == self.text(),
    {
        "%".to_owned().concat(decimal_string(self.0).as_str())
    }
}

impl LabelView {
    /// `label`, the label's number, and its name in parentheses.
    pub open spec fn text(self) -> Seq<char> {
        "label "@ + decimal(self.id as nat) + " ("@ + self.name + ")"@
    }
}

impl Label {
    pub fn to_string(&self) -> (text: String)
        ensures
            text@ == self@.text(),
    {
        "label ".to_owned().concat(decimal_string(self.0).as_str()).concat(" (").concat(
            self.1.as_str(),
        ).concat(")")
    }
}

/// Two slots with a sign between them.
pub open spec fn comparison_text(lhs: Slot, sign: Seq<char>, rhs: Slot) -> Seq<char> {
    lhs.text() + sign + rhs.text()
}

fn comparison_string(lhs: &Slot, sign: &str, rhs: &Slot) -> (text: String)
    ensures
        text@ == comparison_text(*lhs, sign@, *rhs),
{
    lhs.to_string().concat(sign).concat(rhs.to_string().as_str())
}

impl JumpCondition {
    /// The condition as a comparison, or `always`.
    pub open spec fn text(self) -> Seq<char> {
        match self {
            JumpCondition::Unconditional => "always"@,
            JumpCondition::Zero(slot) => slot.text() + " == 0"@,
            JumpCondition::NotZero(slot) => slot.text() + " != 0"@,
            JumpCondition::Equal(lhs, rhs) => comparison_text(lhs, " == "@, rhs),
            JumpCondition::NotEqual(lhs, rhs) => comparison_text(lhs, " != "@, rhs),
            JumpCondition::Greater(lhs, rhs) => comparison_text(lhs, " > "@, rhs),
            JumpCondition::GreaterOrEqual(lhs, rhs) => comparison_text(lhs, " >= "@, rhs),
            JumpCondition::Less(lhs, rhs) => comparison_text(lhs, " < "@, rhs),
            JumpCondition::LessOrEqual(lhs, rhs) => comparison_text(lhs, " <= "@, rhs),
        }
    }

    pub fn to_string(&self) -> (text: String)
        ensures
            text@ == self.text(),
    {
        match self {
            JumpCondition::Unconditional => "always".to_owned(),
            JumpCondition::Zero(slot) => slot.to_string().concat(" == 0"),
            JumpCondition::NotZero(slot) => slot.to_string().concat(" != 0"),
            JumpCondition::Equal(lhs, rhs) => comparison_string(lhs, " == ", rhs),
            JumpCondition::NotEqual(lhs, rhs) => comparison_string(lhs, " != ", rhs),
            JumpCondition::Greater(lhs, rhs) => comparison_string(lhs, " > ", rhs),
            JumpCondition::GreaterOrEqual(lhs, rhs) => comparison_string(lhs, " >= ", rhs),
            JumpCondition::Less(lhs, rhs) => comparison_string(lhs, " < ", rhs),
            JumpCondition::LessOrEqual(lhs, rhs) => comparison_string(lhs, " <= ", rhs),
        }
    }
}

impl AssignmentTarget {
    /// `stack@` or `arg@`, and the offset or the index.
    pub open spec fn text(self) -> Seq<char> {
        match self {
            AssignmentTarget::StackVariable(offset) => "stack@"@ + decimal(offset as nat),
            AssignmentTarget::FunctionArgument(index) => "arg@"@ + decimal(index as nat),
        }
    }

    pub fn to_string(&self) -> (text: String)
        ensures
            text@ == self.text(),
    {
        match self {
            AssignmentTarget::StackVariable(offset) => "stack@".to_owned().concat(
                decimal_string(*offset as u64).as_str(),
            ),
            AssignmentTarget::FunctionArgument(index) => "arg@".to_owned().concat(
                decimal_string(*index as u64).as_str(),
            ),
        }
    }
}

impl ValueView {
    /// An integer in base ten, a string as it is, `true` or `false`.
    pub open spec fn text(self) -> Seq<char> {
        match self {
            ValueView::Integer(n) => signed_decimal(n as int),
            ValueView::String(s) => s,
            ValueView::Boolean(b) => if b {
                "true"@
            } else {
                "false"@
            },
        }
    }
}

impl Value {
    pub fn to_string(&self) -> (text: String)
        ensures
            text@ == self@.text(),
    {
        match self {
            Value::Integer(n) => signed_decimal_string(*n),
            Value::String(s) => s.clone(),
            Value::Boolean(true) => "true".to_owned(),
            Value::Boolean(false) => "false".to_owned(),
        }
    }
}

/// The slots from index `from` on, separated by commas.
pub open spec fn slots_text(slots: Seq<Slot>, from: int) -> Seq<char>
    decreases slots.len() - from,
{
    if 0 <= from < slots.len() {
        if from + 1 < slots.len() {
            slots[from].text() + ", "@ + slots_text(slots, from + 1)
        } else {
            slots[from].text()
        }
    } else {
        Seq::empty()
    }
}

/// The text of the slots before index `upto`, each followed by a comma but
/// the last of all the slots.
pub open spec fn slots_text_before(slots: Seq<Slot>, upto: int) -> Seq<char>
    decreases upto,
{
    if 0 < upto <= slots.len() {
        slots_text_before(slots, upto - 1) + slots[upto - 1].text() + if upto < slots.len() {
            ", "@
        } else {
            Seq::empty()
        }
    } else {
        Seq::empty()
    }
}

/// The text of the first slots followed by that of the others is the text
/// of all.
proof fn lemma_slots_text_split(slots: Seq<Slot>, upto: int)
    requires
        0 <= upto <= slots.len(),
    ensures
        slots_text_before(slots, upto) + slots_text(slots, upto) == slots_text(slots, 0),
    decreases upto,
{
    if upto > 0 {
        lemma_slots_text_split(slots, upto - 1);
        let before = slots_text_before(slots, upto - 1);
        let this = slots[upto - 1].text();
        if upto < slots.len() {
            assert(before + this + ", "@ + slots_text(slots, upto) =~= before + (this + ", "@
                + slots_text(slots, upto)));
        } else {
            assert(slots_text(slots, upto) =~= Seq::<char>::empty());
            assert(before + this + Seq::<char>::empty() + Seq::<char>::empty() =~= before + this);
        }
    } else {
        assert(slots_text_before(slots, 0) + slots_text(slots, 0) =~= slots_text(slots, 0));
    }
}

fn slots_string(slots: &Vec<Slot>) -> (text: String)
    ensures
        text@ == slots_text(slots@, 0),
{
    let mut text = String::new();
    let mut index: usize = 0;
    while index < slots.len()
        invariant
            index <= slots.len(),
            text@ == slots_text_before(slots@, index as int),
        decreases slots.len() - index,
    {
        text = text.concat(slots[index].to_string().as_str());
        if index + 1 < slots.len() {
            text = text.concat(", ");
        } else {
            assert(text@ + Seq::<char>::empty() =~= text@);
        }
        index = index + 1;
    }
    proof {
        lemma_slots_text_split(slots@, slots@.len() as int);
        assert(slots_text(slots@, slots@.len() as int) =~= Seq::<char>::empty());
        assert(text@ + Seq::<char>::empty() =~= text@);
    }
    text
}

impl OpcodeView {
    /// The operation and its operands.
    pub open spec fn text(self) -> Seq<char> {
        match self {
            OpcodeView::Literal(value) => "literal "@ + value.text(),
            OpcodeView::BinaryOperator(lhs, operator, rhs) => lhs.text() + " "@ + operator.text()
                + " "@ + rhs.text(),
            OpcodeView::CallFunction(address, arguments) => "call @"@ + hexadecimal(
                address as nat,
            ) + " ("@ + slots_text(arguments, 0) + ")"@,
            OpcodeView::FunctionArgument(index) => "arg "@ + decimal(index as nat),
            OpcodeView::SetReturnValue(slot) => "return_value = "@ + slot.text(),
            OpcodeView::Return => "return"@,
            OpcodeView::StackVariable(offset) => "stack@"@ + decimal(offset as nat),
            OpcodeView::Jump(condition, label) => "jump to "@ + label.text() + " if "@
                + condition.text(),
            OpcodeView::PhiStart(slot) => "start phi("@ + slot.text() + ")"@,
            OpcodeView::PhiEnd(slots) => "end phi("@ + slots_text(slots, 0) + ")"@,
        }
    }
}

impl Opcode {
    pub fn to_string(&self) -> (text: String)
        ensures
            text@ == self@.text(),
    {
        match self {
            Opcode::Literal(value) => "literal ".to_owned().concat(value.to_string().as_str()),
            Opcode::BinaryOperator(lhs, operator, rhs) => lhs.to_string().concat(" ").concat(
                operator.to_string().as_str(),
            ).concat(" ").concat(rhs.to_string().as_str()),
            Opcode::CallFunction(address, arguments) => "call @".to_owned().concat(
                hexadecimal_string(*address as u64).as_str(),
            ).concat(" (").concat(slots_string(arguments).as_str()).concat(")"),
            Opcode::FunctionArgument(index) => "arg ".to_owned().concat(
                decimal_string(*index as u64).as_str(),
            ),
            Opcode::SetReturnValue(slot) => "return_value = ".to_owned().concat(
                slot.to_string().as_str(),
            ),
            Opcode::Return => "return".to_owned(),
            Opcode::StackVariable(offset) => "stack@".to_owned().concat(
                decimal_string(*offset as u64).as_str(),
            ),
            Opcode::Jump(condition, label) => "jump to ".to_owned().concat(
                label.to_string().as_str(),
            ).concat(" if ").concat(condition.to_string().as_str()),
            Opcode::PhiStart(slot) => "start phi(".to_owned().concat(
                slot.to_string().as_str(),
            ).concat(")"),
            Opcode::PhiEnd(slots) => "end phi(".to_owned().concat(
                slots_string(slots).as_str(),
            ).concat(")"),
        }
    }
}

impl InstructionView {
    /// The instruction as a line: a label with a colon, an operation or an
    /// assignment after its destination.
    pub open spec fn text(self) -> Seq<char> {
        match self {
            InstructionView::Label(label) => label.text() + ":"@,
            InstructionView::Opcode { destination, opcode } => "  "@ + destination.text() + " = "@
                + opcode.text(),
            InstructionView::Assign(target, source) => "  "@ + target.text() + " = "@
                + source.text(),
        }
    }
}

impl Instruction {
    pub fn to_string(&self) -> (text: String)
        ensures
            text@ == self@.text(),
    {
        match self {
            Instruction::Label(label) => label.to_string().concat(":"),
            Instruction::Opcode { destination, opcode } => "  ".to_owned().concat(
                destination.to_string().as_str(),
            ).concat(" = ").concat(opcode.to_string().as_str()),
            Instruction::Assign(target, source) => "  ".to_owned().concat(
                target.to_string().as_str(),
            ).concat(" = ").concat(source.to_string().as_str()),
        }
    }
}

/// The lines of the instructions before index `upto`, each ended by a line
/// break.
pub open spec fn instructions_text(instructions: Seq<InstructionView>, upto: int) -> Seq<char>
    decreases upto,
{
    if 0 < upto <= instructions.len() {
        instructions_text(instructions, upto - 1) + instructions[upto - 1].text() + "\n"@
    } else {
        Seq::empty()
    }
}

impl<'a> Block<'a> {
    /// The instructions of the block, one on each line.
    pub fn to_string(&self) -> (text: String)
        ensures
            text@ == instructions_text(self@.instructions, self@.instructions.len() as int),
    {
        let instructions = self.instructions();
        let mut text = String::new();
        let mut index: usize = 0;
        while index < instructions.len()
            invariant
                index <= instructions.len(),
                instructions@.len() == self@.instructions.len(),
                forall|i: int|
                    0 <= i < instructions@.len() ==> instructions@[i]@ == self@.instructions[i],
                text@ == instructions_text(self@.instructions, index as int),
            decreases instructions.len() - index,
        {
            text = text.concat(instructions[index].to_string().as_str()).concat("\n");
            index = index + 1;
        }
        text
    }
}

} // verus!
