//! The registry of defined functions, and the order of the work on an
//! input.
//!
//! The evaluator owns the outermost scope.  It tells its caller what to do
//! next for an input: to load the code of a function that the input
//! defines, or to load and run the code of the input itself.  The caller
//! loads code into executable memory, tells the evaluator the address of
//! each function that it has loaded, and runs the code.

use vstd::prelude::*;
use crate::codegen::x86_64::machine::{Program, ProgramView};
use crate::compiler::error::{CompilerError, CompilerErrorView};
use crate::compiler::stack_frame::{spec_lookup, StackFrame, StackFrameView, Symbol};
use crate::compiler::{compile, spec_compile};
use crate::parser::grammar::spec_parse;
use crate::parser::syntax::{FunctionDefinitionView, StatementView};
use crate::parser::{
    parse, Block, FunctionDefinition, Identifier, ParseError, Source, Statement,
};

verus! {

#[derive(Debug)]
pub struct Evaluator<'a> {
    stack_frame: StackFrame<'a>,
}

/// The scope of a function's body: a scope inside `frame` in which the
/// first `count` parameters stand for the arguments of the same index.
pub open spec fn spec_function_scope(
    frame: StackFrameView,
    parameters: Seq<Seq<char>>,
    count: int,
) -> StackFrameView
    decreases count,
{
    if 0 < count <= parameters.len() {
        spec_function_scope(frame, parameters, count - 1).insert(
            parameters[count - 1],
            Symbol::Argument((count - 1) as usize),
        )
    } else {
        frame.push()
    }
}

/// The code of a function that is defined in `frame`.
pub open spec fn spec_compile_function(frame: StackFrameView, definition: FunctionDefinitionView) -> Result<
    ProgramView,
    CompilerErrorView,
> {
    match spec_compile(
        spec_function_scope(frame, definition.args, definition.args.len() as int),
        definition.body,
    ) {
        Err(error) => Err(error),
        Ok((_, program)) => Ok(program),
    }
}

/// The code of the function that a statement defines: a function
/// definition is compiled, and any other statement defines nothing.
pub open spec fn spec_evaluate_statement(frame: StackFrameView, statement: StatementView) -> Result<
    Option<ProgramView>,
    CompilerErrorView,
> {
    match statement {
        StatementView::FunctionDefinition(definition) => match spec_compile_function(
            frame,
            definition,
        ) {
            Err(error) => Err(error),
            Ok(program) => Ok(Some(program)),
        },
        _ => Ok(None),
    }
}

/// What the caller of the evaluator is to do next for an input.
#[derive(Debug)]
pub enum Action {
    /// The function that the statement with the index `statement` defines
    /// was compiled.  Its code is to be loaded, and the function defined at
    /// the address of the code.
    Define { statement: usize, program: Program },
    /// Every function that the input defines is defined, and the input was
    /// compiled as a function without parameters.  Its code is to be loaded
    /// and run.
    Run { program: Program },
}

pub enum ActionView {
    Define { statement: usize, program: ProgramView },
    Run { program: ProgramView },
}

impl View for Action {
    type V = ActionView;

    open spec fn view(&self) -> ActionView {
        match *self {
            Action::Define { statement, program } => ActionView::Define {
                statement,
                program: program@,
            },
            Action::Run { program } => ActionView::Run { program: program@ },
        }
    }
}

/// The index of the first function definition among the statements from the
/// index `from` on, or the number of statements where none follows.
pub open spec fn spec_next_definition(statements: Seq<StatementView>, from: int) -> int
    decreases statements.len() - from,
{
    if 0 <= from < statements.len() {
        if statements[from] is FunctionDefinition {
            from
        } else {
            spec_next_definition(statements, from + 1)
        }
    } else {
        statements.len() as int
    }
}

/// The next action for an input whose statements before the index `from`
/// are done with, and the scope after it.
///
/// The functions that the input defines come first, in their order: each
/// is compiled in the scope in which those before it are defined.  Then
/// the whole input is compiled.
pub open spec fn spec_next_action(frame: StackFrameView, block: Seq<StatementView>, from: int) -> Result<
    (StackFrameView, ActionView),
    CompilerErrorView,
> {
    let statement = spec_next_definition(block, from);
    if statement < block.len() {
        match spec_compile_function(frame, block[statement]->FunctionDefinition_0) {
            Err(error) => Err(error),
            Ok(program) => Ok(
                (frame, ActionView::Define { statement: statement as usize, program }),
            ),
        }
    } else {
        match spec_compile(frame, block) {
            Err(error) => Err(error),
            Ok((frame, program)) => Ok((frame, ActionView::Run { program })),
        }
    }
}

/// The next definition is the first from `from` on: no statement between
/// the two defines a function.
pub proof fn lemma_next_definition(statements: Seq<StatementView>, from: int)
    requires
        0 <= from <= statements.len(),
    ensures
        from <= spec_next_definition(statements, from) <= statements.len(),
        spec_next_definition(statements, from) < statements.len() ==> statements[spec_next_definition(
            statements,
            from,
        )] is FunctionDefinition,
        forall|i: int|
            from <= i < spec_next_definition(statements, from) ==> !(
            #[trigger] statements[i] is FunctionDefinition),
    decreases statements.len() - from,
{
    if from < statements.len() && !(statements[from] is FunctionDefinition) {
        lemma_next_definition(statements, from + 1);
    }
}

/// A function that was defined is what its name stands for.
pub proof fn lemma_defined_function_resolves(
    frame: StackFrameView,
    name: Seq<char>,
    address: usize,
    arity: usize,
)
    ensures
        frame.insert(name, Symbol::Function(address, arity)).resolve(name) == Some(
            Symbol::Function(address, arity),
        ),
{
}

/// What a name stands for among the first definitions of a list does not
/// depend on the definitions after them.
proof fn lemma_lookup_in_prefix(
    definitions: Seq<(Seq<char>, Symbol)>,
    last: (Seq<char>, Symbol),
    name: Seq<char>,
    upto: int,
)
    requires
        upto <= definitions.len(),
    ensures
        spec_lookup(definitions.push(last), name, upto) == spec_lookup(definitions, name, upto),
    decreases upto,
{
    if 0 < upto {
        lemma_lookup_in_prefix(definitions, last, name, upto - 1);
    }
}

/// A name stands for what it stood for after another name was defined: a
/// function stays defined in the inputs that follow, until its name is
/// defined anew.
pub proof fn lemma_definition_stays(
    frame: StackFrameView,
    name: Seq<char>,
    other: Seq<char>,
    symbol: Symbol,
)
    requires
        other != name,
    ensures
        frame.insert(other, symbol).resolve(name) == frame.resolve(name),
{
    lemma_lookup_in_prefix(
        frame.definitions,
        (other, symbol),
        name,
        frame.definitions.len() as int,
    );
}

/// The part of a line that was not read, where the first `rest` characters
/// were: `None` where nothing is left.
pub open spec fn spec_unread(line: Seq<char>, rest: int) -> Option<Seq<char>> {
    if 0 <= rest < line.len() {
        Some(line.subrange(rest, line.len() as int))
    } else {
        None
    }
}

/// Whether a result is what reading a line gives: the statements that the
/// grammar reads at the start of the line, and the text after them if any
/// is left.
pub open spec fn read_as(result: Result<(Block, Option<String>), ParseError>, line: Seq<char>) -> bool {
    match spec_parse(line) {
        None => result == Err::<(Block, Option<String>), ParseError>(ParseError { position: 0 }),
        Some(parsed) => {
            &&& result is Ok
            &&& result->Ok_0.0@ == parsed.value
            &&& match spec_unread(line, parsed.rest) {
                None => result->Ok_0.1 is None,
                Some(text) => result->Ok_0.1 is Some && result->Ok_0.1->Some_0@ == text,
            }
        },
    }
}

/// Reads the statements at the start of a line.  Where the line goes on
/// after them, the text that was not read is returned with them: it is an
/// input of its own, to be evaluated after this one.
pub fn read_input(line: &str) -> (result: Result<(Block, Option<String>), ParseError>)
    ensures
        read_as(result, line@),
{
    let (rest, block) = parse(line)?;
    let source = Source::new(line);
    if rest < source.len() {
        let unread = source.substring(rest, source.len());
        Ok((block.value, Some(unread)))
    } else {
        Ok((block.value, None))
    }
}

/// The function scope is well formed, with the slots of the scope around
/// it.
proof fn lemma_function_scope_wf(frame: StackFrameView, parameters: Seq<Seq<char>>, count: int)
    requires
        frame.wf(),
    ensures
        spec_function_scope(frame, parameters, count).wf(),
        spec_function_scope(frame, parameters, count).stack_slots == 0,
        spec_function_scope(frame, parameters, count).parent == Some(Box::new(frame)),
    decreases count,
{
    if 0 < count <= parameters.len() {
        lemma_function_scope_wf(frame, parameters, count - 1);
    }
}

impl<'a> View for Evaluator<'a> {
    type V = StackFrameView;

    closed spec fn view(&self) -> StackFrameView {
        self.stack_frame@
    }
}

impl<'a> Default for Evaluator<'a> {
    fn default() -> (evaluator: Self)
        ensures
            evaluator@ == StackFrameView::root(),
            evaluator@.wf(),
    {
        Evaluator::new()
    }
}

impl<'a> Evaluator<'a> {
    /// An evaluator in which nothing is defined.
    pub fn new() -> (evaluator: Evaluator<'a>)
        ensures
            evaluator@ == StackFrameView::root(),
            evaluator@.wf(),
    {
        Evaluator { stack_frame: StackFrame::new() }
    }

    /// What a name stands for in the outermost scope.
    pub fn resolve(&self, name: &Identifier) -> (symbol: Option<Symbol>)
        requires
            self@.wf(),
        ensures
            symbol == self@.resolve(name@),
    {
        self.stack_frame.resolve(name)
    }

    /// Compiles a function definition: the body is compiled in a scope of
    /// its own, in which the parameters stand for the arguments.
    pub fn compile_function(&self, definition: &FunctionDefinition) -> (result: Result<
        Program,
        CompilerError,
    >)
        requires
            self@.wf(),
        ensures
            match spec_compile_function(self@, definition@) {
                Err(error) => result is Err && result->Err_0@ == error,
                Ok(program) => result is Ok && result->Ok_0@ == program,
            },
    {
        let ghost parameters = Seq::new(definition.args@.len(), |i: int| definition.args@[i]@);
        let mut stack_frame = self.stack_frame.push();
        let mut index: usize = 0;
        while index < definition.args.len()
            invariant
                index <= definition.args.len(),
                self@.wf(),
                parameters == Seq::new(definition.args@.len(), |i: int| definition.args@[i]@),
                stack_frame@ == spec_function_scope(self@, parameters, index as int),
            decreases definition.args.len() - index,
        {
            stack_frame.insert(&definition.args[index], Symbol::Argument(index));
            index = index + 1;
        }
        proof {
            lemma_function_scope_wf(self@, parameters, index as int);
        }
        compile(&mut stack_frame, &definition.body)
    }

    /// Compiles the function that a statement defines, if it defines one.
    /// The scope stays as it is: the function is defined once its code is
    /// loaded.
    pub fn evaluate_statement(&self, statement: &Statement) -> (result: Result<
        Option<Program>,
        CompilerError,
    >)
        requires
            self@.wf(),
        ensures
            match spec_evaluate_statement(self@, statement@) {
                Err(error) => result is Err && result->Err_0@ == error,
                Ok(None) => result is Ok && result->Ok_0 is None,
                Ok(Some(program)) => result is Ok && result->Ok_0 is Some
                    && result->Ok_0->Some_0@ == program,
            },
    {
        match statement {
            Statement::FunctionDefinition(definition) => {
                let function = self.compile_function(definition)?;
                Ok(Some(function))
            },
            _ => Ok(None),
        }
    }

    /// Defines a function whose code was loaded at `address`: its name
    /// stands for a function at that address with as many arguments as the
    /// definition has parameters.
    pub fn define_function(&mut self, definition: &FunctionDefinition, address: usize)
        requires
            old(self)@.wf(),
        ensures
            final(self)@ == old(self)@.insert(
                definition@.name,
                Symbol::Function(address, definition@.args.len() as usize),
            ),
            final(self)@.resolve(definition@.name) == Some(
                Symbol::Function(address, definition@.args.len() as usize),
            ),
            final(self)@.wf(),
    {
        self.stack_frame.insert(&definition.name, Symbol::Function(address, definition.args.len()));
    }

    /// The next action for an input whose statements before the index
    /// `from` are done with.
    ///
    /// The next function that the input defines is compiled, in the scope
    /// as it is: the functions that were defined before it can be called in
    /// it.  Where no definition is left, the whole input is compiled.  A
    /// failure leaves the scope as it was.
    pub fn next_action(&mut self, block: &Block, from: usize) -> (result: Result<
        Action,
        CompilerError,
    >)
        requires
            old(self)@.wf(),
        ensures
            match spec_next_action(old(self)@, block@, from as int) {
                Err(error) => result is Err && result->Err_0@ == error && final(self)@ == old(
                    self,
                )@,
                Ok((frame, action)) => result is Ok && result->Ok_0@ == action && final(self)@
                    == frame,
            },
            final(self)@.wf(),
    {
        let mut index = from;
        while index < block.0.len()
            invariant
                self@ == old(self)@,
                self@.wf(),
                spec_next_definition(block@, index as int) == spec_next_definition(
                    block@,
                    from as int,
                ),
            decreases block.0.len() - index,
        {
            match &block.0[index] {
                Statement::FunctionDefinition(definition) => {
                    let program = self.compile_function(definition)?;
                    return Ok(Action::Define { statement: index, program });
                },
                _ => {},
            }
            index = index + 1;
        }
        let program = self.compile(block)?;
        Ok(Action::Run { program })
    }

    /// Compiles the whole input as a function without parameters.
    pub fn compile(&mut self, block: &Block) -> (result: Result<Program, CompilerError>)
        requires
            old(self)@.wf(),
        ensures
            match spec_compile(old(self)@, block@) {
                Ok((frame, program)) => result is Ok && result->Ok_0@ == program
                    && final(self)@ == frame,
                Err(error) => result is Err && result->Err_0@ == error
                    && final(self)@ == old(self)@,
            },
            final(self)@.wf(),
    {
        compile(&mut self.stack_frame, block)
    }
}

} // verus!
