use std::collections::HashMap;
use vstd::prelude::*;
use super::machine::{MachineLabel, MachineInstruction, Program};
use super::slot::SlotValue;
use crate::ir::label::{Label, LabelView};

verus! {

broadcast use vstd::std_specs::hash::group_hash_axioms;

/// What the emitter knows while it walks the instructions: where the value
/// of each slot is, by the slot's number, and the labels met so far.  The
/// label at index `i` is the code label `i + 1`; code label `0` is the
/// function's epilogue.
pub struct CodegenState {
    pub slot_values: HashMap<u64, SlotValue>,
    pub labels: Vec<Label>,
}

/// The views of a list of labels, in order.
pub open spec fn label_views(labels: Seq<Label>) -> Seq<LabelView> {
    Seq::new(labels.len(), |i: int| labels[i]@)
}

/// The emitter's state and the code emitted so far.
pub struct Emission {
    pub slot_values: Map<u64, SlotValue>,
    pub labels: Seq<LabelView>,
    pub instructions: Seq<MachineInstruction>,
    pub strings: Seq<Seq<char>>,
}

impl Emission {
    /// The emission with one more instruction.
    pub open spec fn emit(self, instruction: MachineInstruction) -> Emission {
        Emission { instructions: self.instructions.push(instruction), ..self }
    }

    /// The emission with more instructions.
    pub open spec fn emit_all(self, instructions: Seq<MachineInstruction>) -> Emission {
        Emission { instructions: self.instructions + instructions, ..self }
    }

    /// The emission in which the slot has a value.
    pub open spec fn define(self, slot: u64, value: SlotValue) -> Emission {
        Emission { slot_values: self.slot_values.insert(slot, value), ..self }
    }
}

/// The state of the emitter together with the program that it writes.
pub open spec fn emission(state: CodegenState, program: Program) -> Emission {
    Emission {
        slot_values: state.slot_values@,
        labels: label_views(state.labels@),
        instructions: program@.instructions,
        strings: program@.strings,
    }
}

/// The code label that marks the function's epilogue.
pub open spec fn spec_epilogue_label() -> MachineLabel {
    MachineLabel(0)
}

/// The index of the label among those from index `from` on.
pub open spec fn spec_find_label(labels: Seq<LabelView>, label: LabelView, from: int) -> Option<int>
    decreases labels.len() - from,
{
    if 0 <= from < labels.len() {
        if labels[from] == label {
            Some(from)
        } else {
            spec_find_label(labels, label, from + 1)
        }
    } else {
        None
    }
}

/// The code label of a label, and the labels known after asking for it: a
/// label that was not met before is added at the end.
pub open spec fn spec_label(labels: Seq<LabelView>, label: LabelView) -> (Seq<LabelView>, MachineLabel) {
    match spec_find_label(labels, label, 0) {
        Some(index) => (labels, MachineLabel((index + 1) as usize)),
        None => (labels.push(label), MachineLabel((labels.len() + 1) as usize)),
    }
}

impl CodegenState {
    pub fn new() -> (state: CodegenState)
        ensures
            state.slot_values@ == Map::<u64, SlotValue>::empty(),
            label_views(state.labels@) == Seq::<LabelView>::empty(),
    {
        let state = CodegenState { slot_values: HashMap::new(), labels: Vec::new() };
        assert(label_views(state.labels@) =~= Seq::<LabelView>::empty());
        state
    }

    /// The code label that stands for a label of the intermediate
    /// representation.  The first request for a label creates its code label.
    pub fn label(&mut self, label: &Label) -> (code_label: MachineLabel)
        ensures
            (label_views(final(self).labels@), code_label) == spec_label(
                label_views(old(self).labels@),
                label@,
            ),
            final(self).slot_values == old(self).slot_values,
    {
        let ghost views = label_views(self.labels@);
        let mut index: usize = 0;
        while index < self.labels.len()
            invariant
                index <= self.labels.len(),
                views == label_views(self.labels@),
                *self == *old(self),
                spec_find_label(views, label@, index as int) == spec_find_label(views, label@, 0),
            decreases self.labels.len() - index,
        {
            if self.labels[index].same_label(label) {
                return MachineLabel(index + 1);
            }
            index = index + 1;
        }
        self.labels.push(label.clone());
        assert(label_views(self.labels@) =~= views.push(label@));
        MachineLabel(self.labels.len())
    }
}

impl Default for CodegenState {
    fn default() -> (state: Self)
        ensures
            state.slot_values@ == Map::<u64, SlotValue>::empty(),
            label_views(state.labels@) == Seq::<LabelView>::empty(),
    {
        Self::new()
    }
}

/// The label that marks the function's epilogue.
pub fn epilogue_label() -> (label: MachineLabel)
    ensures
        label == spec_epilogue_label(),
{
    MachineLabel(0)
}

} // verus!
