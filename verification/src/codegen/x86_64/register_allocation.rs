//! A pool of the scratch registers, for code that reserves and frees
//! registers by hand.

use vstd::prelude::*;
use super::error::{CodegenError, CodegenErrorView};
use super::machine::Register;

verus! {

/// Whether a register that is in use may be reserved once more.
#[derive(Clone, Copy, Debug, PartialEq, Eq, Structural)]
pub enum ReserveMode {
    AllowReuse,
    DenyReuse,
}

/// The registers of the pool, in the order in which they are handed out.
pub open spec fn all_registers() -> Seq<Register> {
    seq![Register::R8, Register::R9, Register::R10, Register::R11]
}

/// The first register of the pool from index `from` on that is not in use.
pub open spec fn spec_next_available(used: Set<Register>, from: int) -> Option<Register>
    decreases all_registers().len() - from,
{
    if 0 <= from < all_registers().len() {
        if used.contains(all_registers()[from]) {
            spec_next_available(used, from + 1)
        } else {
            Some(all_registers()[from])
        }
    } else {
        None
    }
}

/// The registers that are in use.
///
/// They are kept in a list, which stands for the set of its items: `vstd`
/// specifies a hash set only for items of the primitive types.
pub struct RegisterAllocator {
    used_registers: Vec<Register>,
}

impl View for RegisterAllocator {
    type V = Set<Register>;

    closed spec fn view(&self) -> Set<Register> {
        self.used_registers@.to_set()
    }
}

impl RegisterAllocator {
    /// A pool of which no register is in use.
    pub fn new() -> (allocator: RegisterAllocator)
        ensures
            allocator@ == Set::<Register>::empty(),
    {
        let allocator = RegisterAllocator { used_registers: Vec::new() };
        assert(allocator.used_registers@.to_set() =~= Set::<Register>::empty());
        allocator
    }

    fn is_register_available(&self, register: Register) -> (available: bool)
        ensures
            available == !self@.contains(register),
    {
        let mut index: usize = 0;
        while index < self.used_registers.len()
            invariant
                index <= self.used_registers.len(),
                forall|i: int| 0 <= i < index ==> self.used_registers@[i] != register,
            decreases self.used_registers.len() - index,
        {
            if self.used_registers[index] == register {
                return false;
            }
            index = index + 1;
        }
        true
    }

    fn next_available_register(&self) -> (register: Option<Register>)
        ensures
            register == spec_next_available(self@, 0),
            register is Some ==> !self@.contains(register->0),
    {
        reveal_with_fuel(spec_next_available, 5);
        if self.is_register_available(Register::R8) {
            Some(Register::R8)
        } else if self.is_register_available(Register::R9) {
            Some(Register::R9)
        } else if self.is_register_available(Register::R10) {
            Some(Register::R10)
        } else if self.is_register_available(Register::R11) {
            Some(Register::R11)
        } else {
            None
        }
    }

    /// Reserves the first register of the pool that is not in use.  Where
    /// all are in use, spilling would be needed, which is not implemented.
    pub fn reserve_register(&mut self) -> (result: Result<Register, CodegenError>)
        ensures
            match spec_next_available(old(self)@, 0) {
                Some(register) => result is Ok && result->Ok_0 == register && final(self)@
                    == old(self)@.insert(register),
                None => result is Err && result->Err_0@ == CodegenErrorView::NotImplemented(
                    "register spilling"@,
                ) && final(self)@ == old(self)@,
            },
    {
        match self.next_available_register() {
            Some(register) => self.reserve_specific_register(register, ReserveMode::DenyReuse),
            None => Err(CodegenError::not_implemented("register spilling")),
        }
    }

    /// Reserves a register.  A register that is in use can be reserved only
    /// where reuse is allowed.
    pub fn reserve_specific_register(&mut self, register: Register, mode: ReserveMode) -> (result:
        Result<Register, CodegenError>)
        ensures
            mode == ReserveMode::DenyReuse && old(self)@.contains(register) ==> result is Err
                && result->Err_0@ == CodegenErrorView::RegisterNotAvailable(register)
                && final(self)@ == old(self)@,
            !(mode == ReserveMode::DenyReuse && old(self)@.contains(register)) ==> result is Ok
                && result->Ok_0 == register && final(self)@ == old(self)@.insert(register),
    {
        let available = self.is_register_available(register);
        if mode == ReserveMode::DenyReuse && !available {
            return Err(CodegenError::RegisterNotAvailable(register));
        }
        if available {
            self.used_registers.push(register);
            proof {
                old(self).used_registers@.lemma_push_to_set_commute(register);
            }
        } else {
            assert(old(self)@.insert(register) =~= old(self)@);
        }
        Ok(register)
    }

    /// Gives a register back to the pool.
    pub fn free_register(&mut self, register: &Register)
        ensures
            final(self)@ == old(self)@.remove(*register),
    {
        let mut kept: Vec<Register> = Vec::new();
        let mut index: usize = 0;
        while index < self.used_registers.len()
            invariant
                index <= self.used_registers.len(),
                *self == *old(self),
                kept@.to_set() == self.used_registers@.take(index as int).to_set().remove(
                    *register,
                ),
            decreases self.used_registers.len() - index,
        {
            let current = self.used_registers[index];
            let ghost before = self.used_registers@.take(index as int);
            assert(self.used_registers@.take(index + 1) =~= before.push(current));
            proof {
                before.lemma_push_to_set_commute(current);
            }
            if current != *register {
                proof {
                    kept@.lemma_push_to_set_commute(current);
                }
                kept.push(current);
                assert(kept@.to_set() =~= before.push(current).to_set().remove(*register));
            } else {
                assert(kept@.to_set() =~= before.push(current).to_set().remove(*register));
            }
            index = index + 1;
        }
        assert(self.used_registers@.take(index as int) =~= self.used_registers@);
        self.used_registers = kept;
    }
}

} // verus!
