use vstd::prelude::*;
use super::jump_condition::JumpCondition;
use super::label::{Label, LabelView};
use super::slot::Slot;
use crate::parser::BinaryOperator;
use crate::value::{Value, ValueView};

verus! {

/// Where an assignment writes to.
#[derive(Debug, Clone, Copy, PartialEq, Eq, Structural)]
pub enum AssignmentTarget {
    /// The stack slot at this offset, in units of eight bytes.
    StackVariable(usize),
    /// The register of the parameter with this index.
    FunctionArgument(usize),
}

#[derive(Debug, PartialEq)]
pub enum Opcode {
    /// A constant.
    Literal(Value),
    /// The caller's argument with this index.
    FunctionArgument(usize),
    /// Moves the slot to the return register.
    SetReturnValue(Slot),
    /// Leaves the function.
    Return,
    Jump(JumpCondition, Label),
    BinaryOperator(Slot, BinaryOperator, Slot),
    /// A call of the code at an address, with the arguments in order.
    CallFunction(usize, Vec<Slot>),
    /// The stack slot at this offset, in units of eight bytes.
    StackVariable(usize),
    /// One predecessor's contribution to a join.
    PhiStart(Slot),
    /// A join: the value of whichever of the slots the path taken defined.
    PhiEnd(Vec<Slot>),
}

pub enum OpcodeView {
    Literal(ValueView),
    FunctionArgument(usize),
    SetReturnValue(Slot),
    Return,
    Jump(JumpCondition, LabelView),
    BinaryOperator(Slot, BinaryOperator, Slot),
    CallFunction(usize, Seq<Slot>),
    StackVariable(usize),
    PhiStart(Slot),
    PhiEnd(Seq<Slot>),
}

impl View for Opcode {
    type V = OpcodeView;

    open spec fn view(&self) -> OpcodeView {
        match self {
            Opcode::Literal(value) => OpcodeView::Literal(value@),
            Opcode::FunctionArgument(index) => OpcodeView::FunctionArgument(*index),
            Opcode::SetReturnValue(slot) => OpcodeView::SetReturnValue(*slot),
            Opcode::Return => OpcodeView::Return,
            Opcode::Jump(condition, label) => OpcodeView::Jump(*condition, label@),
            Opcode::BinaryOperator(lhs, operator, rhs) => OpcodeView::BinaryOperator(
                *lhs,
                *operator,
                *rhs,
            ),
            Opcode::CallFunction(address, arguments) => OpcodeView::CallFunction(
                *address,
                arguments@,
            ),
            Opcode::StackVariable(offset) => OpcodeView::StackVariable(*offset),
            Opcode::PhiStart(slot) => OpcodeView::PhiStart(*slot),
            Opcode::PhiEnd(slots) => OpcodeView::PhiEnd(slots@),
        }
    }
}

impl OpcodeView {
    /// The slots that the operation reads.
    pub open spec fn inputs(self) -> Seq<Slot> {
        match self {
            OpcodeView::SetReturnValue(slot) => seq![slot],
            OpcodeView::Jump(condition, _) => condition.inputs(),
            OpcodeView::BinaryOperator(lhs, _, rhs) => seq![lhs, rhs],
            OpcodeView::CallFunction(_, arguments) => arguments,
            OpcodeView::PhiStart(slot) => seq![slot],
            OpcodeView::PhiEnd(slots) => slots,
            _ => seq![],
        }
    }
}

} // verus!
