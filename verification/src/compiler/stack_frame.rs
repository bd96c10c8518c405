//! The symbol table: a chain of scopes.

use vstd::prelude::*;
use crate::parser::Identifier;

verus! {

/// What a name stands for.
#[derive(Debug, PartialEq, Eq, Hash, Clone, Copy, Structural)]
pub enum Symbol {
    /// The parameter with this index.
    Argument(usize),
    /// The function whose code starts at this address, and its arity.
    Function(usize, usize),
    /// The stack slot at this offset, in units of eight bytes.
    StackVariable(usize),
}

/// One scope, and the scopes around it.
///
/// A later definition of a name hides an earlier one, and a definition in a
/// scope hides those of the scopes around it.
///
/// The definitions are kept in the order in which they were made, and a
/// name is looked up from the last of them: the names are strings, and
/// `vstd` specifies a hash map only for keys of the primitive types.
#[derive(Debug)]
pub struct StackFrame<'a> {
    parent: Option<&'a StackFrame<'a>>,
    definitions: Vec<(Identifier, Symbol)>,
    stack_slots: usize,
}

/// The mathematical content of a [`StackFrame`].
pub struct StackFrameView {
    pub parent: Option<Box<StackFrameView>>,
    /// The definitions of this scope, the earliest first.
    pub definitions: Seq<(Seq<char>, Symbol)>,
    /// The number of stack slots that this scope declared.
    pub stack_slots: usize,
}

/// The symbol of the last definition of the name among the first `upto`.
pub open spec fn spec_lookup(definitions: Seq<(Seq<char>, Symbol)>, name: Seq<char>, upto: int) -> Option<
    Symbol,
>
    decreases upto,
{
    if 0 < upto <= definitions.len() {
        if definitions[upto - 1].0 == name {
            Some(definitions[upto - 1].1)
        } else {
            spec_lookup(definitions, name, upto - 1)
        }
    } else {
        None
    }
}

/// Whether every stack variable among the definitions lies in one of the
/// first `stack_slots` slots.
pub open spec fn offsets_in_frame(definitions: Seq<(Seq<char>, Symbol)>, stack_slots: usize) -> bool {
    forall|i: int|
        0 <= i < definitions.len() ==> match (#[trigger] definitions[i]).1 {
            Symbol::StackVariable(offset) => offset < stack_slots,
            _ => true,
        }
}

impl StackFrameView {
    /// The outermost scope, empty.
    pub open spec fn root() -> StackFrameView {
        StackFrameView { parent: None, definitions: Seq::empty(), stack_slots: 0 }
    }

    /// An empty scope inside this one.
    pub open spec fn push(self) -> StackFrameView {
        StackFrameView { parent: Some(Box::new(self)), definitions: Seq::empty(), stack_slots: 0 }
    }

    /// The stack slots of this scope and of the scopes around it.
    pub open spec fn total_slots(self) -> int
        decreases self,
    {
        match self.parent {
            Some(parent) => self.stack_slots + parent.total_slots(),
            None => self.stack_slots as int,
        }
    }

    /// Well-formedness: stack variables lie in their scope's slots, and the
    /// slots of the whole chain can be counted in a machine word.
    pub open spec fn wf(self) -> bool
        decreases self,
    {
        &&& offsets_in_frame(self.definitions, self.stack_slots)
        &&& self.total_slots() <= usize::MAX
        &&& match self.parent {
            Some(parent) => parent.wf(),
            None => true,
        }
    }

    /// Whether a symbol can be defined in this scope.
    pub open spec fn admits(self, symbol: Symbol) -> bool {
        match symbol {
            Symbol::StackVariable(offset) => offset < self.stack_slots,
            _ => true,
        }
    }

    /// The scope with one more definition.
    pub open spec fn insert(self, name: Seq<char>, symbol: Symbol) -> StackFrameView {
        StackFrameView { definitions: self.definitions.push((name, symbol)), ..self }
    }

    /// The scope with one more stack slot, which the name stands for.
    pub open spec fn declare(self, name: Seq<char>) -> StackFrameView {
        StackFrameView {
            parent: self.parent,
            definitions: self.definitions.push((name, Symbol::StackVariable(self.stack_slots))),
            stack_slots: (self.stack_slots + 1) as usize,
        }
    }

    /// What the name stands for, seen from a scope whose own slots and those
    /// between it and this scope number `frame_offset`: the offset of a stack
    /// variable counts from the innermost scope.
    pub open spec fn resolve_with_offset(self, name: Seq<char>, frame_offset: int) -> Option<Symbol>
        decreases self,
    {
        match spec_lookup(self.definitions, name, self.definitions.len() as int) {
            Some(Symbol::StackVariable(offset)) => Some(
                Symbol::StackVariable((frame_offset + offset) as usize),
            ),
            Some(symbol) => Some(symbol),
            None => match self.parent {
                Some(parent) => parent.resolve_with_offset(name, frame_offset + self.stack_slots),
                None => None,
            },
        }
    }

    /// What the name stands for in this scope.
    pub open spec fn resolve(self, name: Seq<char>) -> Option<Symbol> {
        self.resolve_with_offset(name, 0)
    }

    /// Whether `later` is this scope after more definitions were made in it.
    pub open spec fn extended_by(self, later: StackFrameView) -> bool {
        &&& later.parent == self.parent
        &&& self.definitions.len() <= later.definitions.len()
        &&& forall|i: int|
            0 <= i < self.definitions.len() ==> later.definitions[i]
                == #[trigger] self.definitions[i]
    }
}

/// The slots of a chain of scopes are at least those of its innermost scope.
pub proof fn lemma_total_slots_bound(frame: StackFrameView)
    ensures
        frame.stack_slots <= frame.total_slots(),
        match frame.parent {
            Some(parent) => frame.total_slots() == frame.stack_slots + parent.total_slots(),
            None => frame.total_slots() == frame.stack_slots,
        },
    decreases frame,
{
    match frame.parent {
        Some(parent) => {
            lemma_total_slots_bound(*parent);
        },
        None => {},
    }
}

/// The views of a list of definitions, in order.
pub open spec fn definition_views(definitions: Seq<(Identifier, Symbol)>) -> Seq<(Seq<char>, Symbol)> {
    Seq::new(definitions.len(), |i: int| (definitions[i].0@, definitions[i].1))
}

/// The view of a scope.
pub closed spec fn frame_view(frame: StackFrame<'_>) -> StackFrameView
    decreases frame,
{
    StackFrameView {
        parent: match frame.parent {
            Some(parent) => Some(Box::new(frame_view(*parent))),
            None => None,
        },
        definitions: definition_views(frame.definitions@),
        stack_slots: frame.stack_slots,
    }
}

impl<'a> View for StackFrame<'a> {
    type V = StackFrameView;

    open spec fn view(&self) -> StackFrameView {
        frame_view(*self)
    }
}

impl<'a> Default for StackFrame<'a> {
    fn default() -> (frame: Self)
        ensures
            frame@ == StackFrameView::root(),
            frame@.wf(),
    {
        StackFrame::new()
    }
}

/// A point in the life of a scope to which it can be taken back.
#[derive(Clone, Copy, Debug)]
pub struct FrameMark {
    definitions: usize,
    stack_slots: usize,
}

impl FrameMark {
    /// Whether the mark was taken of this scope.
    pub closed spec fn marks(self, frame: StackFrameView) -> bool {
        self.definitions == frame.definitions.len() && self.stack_slots == frame.stack_slots
    }
}

impl<'a> StackFrame<'a> {
    /// The outermost scope, empty.
    pub fn new() -> (frame: StackFrame<'a>)
        ensures
            frame@ == StackFrameView::root(),
            frame@.wf(),
    {
        let frame = StackFrame { parent: None, definitions: Vec::new(), stack_slots: 0 };
        assert(frame@.definitions =~= Seq::empty());
        frame
    }

    /// An empty scope inside this one.
    pub fn push(&self) -> (child: StackFrame<'_>)
        ensures
            child@ == self@.push(),
            self@.wf() ==> child@.wf(),
    {
        let child = StackFrame { parent: Some(self), definitions: Vec::new(), stack_slots: 0 };
        assert(child@.definitions =~= Seq::empty());
        child
    }

    /// Defines a name in this scope.
    pub fn insert(&mut self, name: &Identifier, symbol: Symbol)
        requires
            old(self)@.admits(symbol),
        ensures
            final(self)@ == old(self)@.insert(name@, symbol),
            old(self)@.wf() ==> final(self)@.wf(),
    {
        self.definitions.push((name.clone(), symbol));
        assert(final(self)@.definitions =~= old(self)@.definitions.push((name@, symbol)));
    }

    /// Declares a stack variable in the next free slot of this scope.
    pub fn insert_stack_variable(&mut self, name: &Identifier) -> (symbol: Symbol)
        requires
            old(self)@.wf(),
            old(self)@.total_slots() < usize::MAX,
        ensures
            symbol == Symbol::StackVariable(old(self)@.stack_slots),
            final(self)@ == old(self)@.declare(name@),
            final(self)@.wf(),
    {
        proof {
            lemma_total_slots_bound(self@);
        }
        let offset = self.stack_slots;
        self.stack_slots = self.stack_slots + 1;
        let symbol = Symbol::StackVariable(offset);
        self.definitions.push((name.clone(), symbol));
        assert(final(self)@.definitions =~= old(self)@.definitions.push((name@, symbol)));
        symbol
    }

    /// What the name stands for.
    pub fn resolve(&self, name: &Identifier) -> (symbol: Option<Symbol>)
        requires
            self@.wf(),
        ensures
            symbol == self@.resolve(name@),
    {
        self.resolve_with_offset(name, 0)
    }

    /// What the name stands for, seen from a scope at a distance of
    /// `frame_offset` stack slots.
    pub fn resolve_with_offset(&self, name: &Identifier, frame_offset: usize) -> (symbol: Option<
        Symbol,
    >)
        requires
            self@.wf(),
            frame_offset + self@.total_slots() <= usize::MAX,
        ensures
            symbol == self@.resolve_with_offset(name@, frame_offset as int),
        decreases self,
    {
        proof {
            lemma_total_slots_bound(self@);
        }
        let ghost views = definition_views(self.definitions@);
        let mut index: usize = self.definitions.len();
        while index > 0
            invariant
                index <= self.definitions.len(),
                offsets_in_frame(views, self.stack_slots),
                frame_offset + self.stack_slots <= usize::MAX,
                views == definition_views(self.definitions@),
                spec_lookup(views, name@, index as int) == spec_lookup(
                    views,
                    name@,
                    views.len() as int,
                ),
            decreases index,
        {
            index = index - 1;
            if self.definitions[index].0.same_name(name) {
                match self.definitions[index].1 {
                    Symbol::StackVariable(variable_offset) => {
                        assert(views[index as int].1 == Symbol::StackVariable(variable_offset));
                        return Some(Symbol::StackVariable(frame_offset + variable_offset));
                    },
                    symbol => {
                        return Some(symbol);
                    },
                }
            }
        }
        match self.parent {
            Some(parent) => parent.resolve_with_offset(name, frame_offset + self.stack_slots),
            None => None,
        }
    }

    /// The number of stack slots that this scope declared.
    pub fn stack_slots(&self) -> (stack_slots: usize)
        ensures
            stack_slots == self@.stack_slots,
    {
        self.stack_slots
    }

    /// The stack slots of this scope and of the scopes around it.
    pub fn total_stack_slots(&self) -> (total: usize)
        requires
            self@.wf(),
        ensures
            total == self@.total_slots(),
        decreases self,
    {
        match self.parent {
            Some(parent) => self.stack_slots + parent.total_stack_slots(),
            None => self.stack_slots,
        }
    }

    /// The point to which `restore` takes the scope back.
    pub fn mark(&self) -> (mark: FrameMark)
        ensures
            mark.marks(self@),
    {
        FrameMark { definitions: self.definitions.len(), stack_slots: self.stack_slots }
    }

    /// Takes the scope back to a mark: whatever was defined since is
    /// forgotten.
    pub(crate) fn restore(&mut self, mark: FrameMark, Ghost(earlier): Ghost<StackFrameView>)
        requires
            mark.marks(earlier),
            earlier.extended_by(old(self)@),
        ensures
            final(self)@ == earlier,
    {
        self.definitions.truncate(mark.definitions);
        self.stack_slots = mark.stack_slots;
        assert(final(self)@.definitions =~= earlier.definitions);
    }
}

} // verus!
