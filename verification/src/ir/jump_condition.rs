use vstd::prelude::*;
use super::slot::Slot;

verus! {

/// When a jump is taken.
#[derive(Debug, Clone, Copy, PartialEq, Eq, Structural)]
pub enum JumpCondition {
    Unconditional,
    Zero(Slot),
    NotZero(Slot),
    Greater(Slot, Slot),
    GreaterOrEqual(Slot, Slot),
    Less(Slot, Slot),
    LessOrEqual(Slot, Slot),
    Equal(Slot, Slot),
    NotEqual(Slot, Slot),
}

impl JumpCondition {
    /// The slots that the condition reads.
    pub open spec fn inputs(self) -> Seq<Slot> {
        match self {
            JumpCondition::Unconditional => seq![],
            JumpCondition::Zero(slot) | JumpCondition::NotZero(slot) => seq![slot],
            JumpCondition::Greater(lhs, rhs)
            | JumpCondition::GreaterOrEqual(lhs, rhs)
            | JumpCondition::Less(lhs, rhs)
            | JumpCondition::LessOrEqual(lhs, rhs)
            | JumpCondition::Equal(lhs, rhs)
            | JumpCondition::NotEqual(lhs, rhs) => seq![lhs, rhs],
        }
    }
}

} // verus!
