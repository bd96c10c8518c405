use vstd::prelude::*;

verus! {

/// A jump target: a number that identifies it within its block, and a tag
/// for the human reader.
#[derive(Debug, Hash, PartialEq, Eq)]
pub struct Label(pub u64, pub String);

pub struct LabelView {
    pub id: u64,
    pub name: Seq<char>,
}

impl View for Label {
    type V = LabelView;

    open spec fn view(&self) -> LabelView {
        LabelView { id: self.0, name: self.1@ }
    }
}

impl Clone for Label {
    fn clone(&self) -> (copy: Self)
        ensures
            copy == *self,
    {
        Label(self.0, self.1.clone())
    }
}

impl Label {
    pub fn new(id: u64, label: &str) -> (created: Label)
        ensures
            created@ == (LabelView { id, name: label@ }),
    {
        Label(id, label.to_owned())
    }

    /// Whether two labels are the same target.
    pub fn same_label(&self, other: &Label) -> (same: bool)
        ensures
            same == (self@ == other@),
    {
        self.0 == other.0 && self.1 == other.1
    }
}

} // verus!
