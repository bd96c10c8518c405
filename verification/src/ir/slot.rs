use vstd::prelude::*;

verus! {

/// The name of a value that an instruction produces.  A block names the
/// value of its `n`-th instruction `Slot(n)`, so no name is used twice.
#[derive(Debug, Clone, Copy, PartialEq, Eq, Hash, Structural)]
pub struct Slot(pub u64);

impl Slot {
    pub fn new(id: u64) -> (slot: Slot)
        ensures
            slot == Slot(id),
    {
        Slot(id)
    }

    pub fn id(&self) -> (id: u64)
        ensures
            id == self.0,
    {
        self.0
    }
}

} // verus!
