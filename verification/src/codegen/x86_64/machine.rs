//! The machine instructions that the backend selects, as plain data.

use vstd::prelude::*;

verus! {

/// The general-purpose registers that generated code touches.
#[derive(Clone, Copy, Debug, PartialEq, Eq, Hash, Structural)]
pub enum Register {
    Rax,
    Rcx,
    Rdx,
    Rsi,
    Rdi,
    Rbp,
    Rsp,
    R8,
    R9,
    R10,
    R11,
}

/// A position in the generated code that branches can name.  A program
/// numbers its labels from zero.
#[derive(Clone, Copy, Debug, PartialEq, Eq, Hash, Structural)]
pub struct MachineLabel(pub usize);

/// The conditions of the conditional branches.  After a test of a register
/// against itself, `Equal` is taken where the register is zero, and
/// `NotEqual` where it is not.
#[derive(Clone, Copy, Debug, PartialEq, Eq, Structural)]
pub enum BranchCondition {
    Equal,
    NotEqual,
    Less,
    LessOrEqual,
    Greater,
    GreaterOrEqual,
}

/// One machine instruction, or the binding of a label to the instruction
/// that follows it.
#[derive(Clone, Copy, Debug, PartialEq, Eq, Structural)]
pub enum MachineInstruction {
    /// Binds the label to the next instruction.
    Label(MachineLabel),
    /// `push reg`
    Push(Register),
    /// `pop reg`
    Pop(Register),
    /// `ret`
    Ret,
    /// `mov dst, src`
    Move(Register, Register),
    /// `mov dst, imm64`
    MoveImmediate(Register, u64),
    /// `mov dst, imm64`, where the immediate is the encoded address of the
    /// boxed copy of the string with this index in the program's strings.
    MoveString(Register, usize),
    /// `mov dst, qword ptr [rbp + displacement]`
    Load(Register, i32),
    /// `mov qword ptr [rbp + displacement], src`
    Store(i32, Register),
    /// `add dst, src`
    Add(Register, Register),
    /// `sub dst, src`
    Subtract(Register, Register),
    /// `sub dst, imm32`
    SubtractImmediate(Register, i32),
    /// `imul dst, src`
    Multiply(Register, Register),
    /// `test lhs, rhs`
    Test(Register, Register),
    /// `cmp lhs, rhs`
    Compare(Register, Register),
    /// `call address`
    Call(u64),
    /// `jmp label`
    Jump(MachineLabel),
    /// `jcc label`
    Branch(BranchCondition, MachineLabel),
}

} // verus!

verus! {

/// The code of one function: its instructions, and the string constants that
/// they refer to by index.
#[derive(Debug)]
pub struct Program {
    pub instructions: Vec<MachineInstruction>,
    pub strings: Vec<String>,
}

pub struct ProgramView {
    pub instructions: Seq<MachineInstruction>,
    pub strings: Seq<Seq<char>>,
}

/// The views of a list of strings, in order.
pub open spec fn string_views(strings: Seq<String>) -> Seq<Seq<char>> {
    Seq::new(strings.len(), |i: int| strings[i]@)
}

impl View for Program {
    type V = ProgramView;

    open spec fn view(&self) -> ProgramView {
        ProgramView { instructions: self.instructions@, strings: string_views(self.strings@) }
    }
}

impl Program {
    /// A program without instructions.
    pub fn new() -> (program: Program)
        ensures
            program@.instructions == Seq::<MachineInstruction>::empty(),
            program@.strings == Seq::<Seq<char>>::empty(),
    {
        let program = Program { instructions: Vec::new(), strings: Vec::new() };
        assert(program@.strings =~= Seq::<Seq<char>>::empty());
        program
    }

    /// Appends an instruction.
    pub fn emit(&mut self, instruction: MachineInstruction)
        ensures
            final(self)@.instructions == old(self)@.instructions.push(instruction),
            final(self)@.strings == old(self)@.strings,
    {
        self.instructions.push(instruction);
    }

    /// Appends a string constant, and returns its index.
    pub fn add_string(&mut self, string: String) -> (index: usize)
        ensures
            index == old(self)@.strings.len(),
            final(self)@.strings == old(self)@.strings.push(string@),
            final(self)@.instructions == old(self)@.instructions,
    {
        let index = self.strings.len();
        self.strings.push(string);
        assert(final(self)@.strings =~= old(self)@.strings.push(string@));
        index
    }
}

} // verus!
