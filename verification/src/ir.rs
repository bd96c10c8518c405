//! The linear intermediate representation: instructions over slots and
//! labels, and the block that collects them.

pub mod block;
pub mod instruction;
pub mod jump_condition;
pub mod label;
pub mod opcode;
pub mod slot;
pub mod text;

pub use self::{
    block::Block, instruction::Instruction, jump_condition::JumpCondition, label::Label,
    opcode::AssignmentTarget, opcode::Opcode, slot::Slot,
};
