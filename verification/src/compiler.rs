//! Lowering of the syntax tree to the intermediate representation.

pub mod error;
pub mod laws;
pub mod lowering;
pub mod ordering;
pub mod pairing;
pub mod stack_frame;

pub use self::error::{CompileError, CompilerError};
pub use self::stack_frame::{StackFrame, Symbol};

use vstd::prelude::*;

use self::error::CompileErrorView;
use self::laws::empty_block;
use self::lowering::{
    spec_compile_arguments, spec_compile_assignment_statement,
    spec_compile_binary_operator_expression, spec_compile_block, spec_compile_body_statements,
    spec_compile_branches, spec_compile_condition_statement, spec_compile_expression,
    spec_compile_function_body, spec_compile_function_call, spec_compile_identifier,
    spec_compile_literal, spec_compile_loop_statement, spec_compile_predicate,
    spec_compile_return_statement, spec_compile_statement, spec_compile_variable_declaration,
    spec_predicate_jumps, Lowered,
};
use crate::codegen::x86_64::machine::{Program, ProgramView};
use crate::codegen::x86_64::{codegen, spec_codegen};
use crate::ir::block::BlockView;
use self::error::CompilerErrorView;
use self::stack_frame::StackFrameView;
use crate::ir::{self, AssignmentTarget, Instruction, Opcode, Slot};
use crate::parser::syntax::{branch_views, expression_views, StatementView};
use crate::parser::{
    ArithmeticOperator, Assignment, BinaryOperator, Block, ComparisonOperator, Condition,
    Expression, Identifier, Literal, Loop, Statement, VariableDeclaration,
};
use crate::value::Value;

verus! {

pub type CompileResult = Result<Slot, CompileError>;

/// Whether a block and a result are what the lowering specifies.  The block
/// is then the earlier block with more written to it, in a well-formed
/// scope.
pub open spec fn lowered(
    before: BlockView,
    after: BlockView,
    result: CompileResult,
    expected: Lowered,
) -> bool {
    &&& after == expected.0
    &&& match expected.1 {
        Ok(slot) => result == Ok::<Slot, CompileError>(slot),
        Err(error) => result is Err && result->Err_0@ == error,
    }
    &&& before.extended_by(after)
    &&& after.frame.wf()
}

/// Lowers a literal to a constant.
pub fn compile_literal(block: &mut ir::Block, literal: &Literal) -> (result: CompileResult)
    requires
        old(block)@.frame.wf(),
    ensures
        lowered(old(block)@, final(block)@, result, spec_compile_literal(old(block)@, literal@)),
{
    match literal {
        Literal::Integer(number) => Ok(block.push_op(ir::Opcode::Literal(Value::Integer(*number)))),
        Literal::String(string) => Ok(
            block.push_op(ir::Opcode::Literal(Value::String(string.clone()))),
        ),
    }
}

/// Lowers the reading of a name.
pub fn compile_identifier(block: &mut ir::Block, identifier: &Identifier) -> (result: CompileResult)
    requires
        old(block)@.frame.wf(),
    ensures
        lowered(
            old(block)@,
            final(block)@,
            result,
            spec_compile_identifier(old(block)@, identifier@),
        ),
{
    match block.resolve(identifier) {
        None => Err(CompileError::unresolved_symbol(identifier)),
        Some(Symbol::Function(_, _)) => Err(CompileError::not_implemented("function used as a value")),
        Some(_) => match block.resolve_to_slot(identifier) {
            Some(slot) => Ok(slot),
            None => Err(CompileError::unresolved_symbol(identifier)),
        },
    }
}

/// Lowers an expression.  The slot holds the expression's value.
pub fn compile_expression(block: &mut ir::Block, expression: &Expression) -> (result: CompileResult)
    requires
        old(block)@.frame.wf(),
    ensures
        lowered(
            old(block)@,
            final(block)@,
            result,
            spec_compile_expression(old(block)@, expression@),
        ),
    decreases expression, 1nat,
{
    match expression {
        Expression::Identifier(identifier) => compile_identifier(block, identifier),
        Expression::FunctionCall(identifier, args) => {
            assert(expression@->FunctionCall_1 =~= expression_views(args@));
            compile_function_call(block, identifier, args)
        },
        Expression::Literal(literal) => compile_literal(block, literal),
        Expression::BinaryExpression(lhs, operator, rhs) => compile_binary_operator_expression(
            block,
            lhs,
            operator,
            rhs,
        ),
    }
}

/// Lowers a binary operation.
pub fn compile_binary_operator_expression(
    block: &mut ir::Block,
    lhs: &Expression,
    operator: &BinaryOperator,
    rhs: &Expression,
) -> (result: CompileResult)
    requires
        old(block)@.frame.wf(),
    ensures
        lowered(
            old(block)@,
            final(block)@,
            result,
            spec_compile_binary_operator_expression(old(block)@, lhs@, *operator, rhs@),
        ),
    decreases Expression::BinaryExpression(Box::new(*lhs), *operator, Box::new(*rhs)), 0nat,
{
    match operator {
        BinaryOperator::ComparisonOperator(_) => {
            return Err(CompileError::not_implemented("comparison outside of a predicate"));
        },
        BinaryOperator::ArithmeticOperator(ArithmeticOperator::Divide) => {
            return Err(CompileError::not_implemented("division"));
        },
        _ => {},
    }
    proof {
        let whole = Expression::BinaryExpression(Box::new(*lhs), *operator, Box::new(*rhs));
        assert(decreases_to!(whole => whole->BinaryExpression_0));
        assert(decreases_to!(whole => whole->BinaryExpression_2));
    }
    let lhs_slot = compile_expression(block, lhs)?;
    let rhs_slot = compile_expression(block, rhs)?;
    let slot = block.push_op(ir::Opcode::BinaryOperator(lhs_slot, *operator, rhs_slot));
    Ok(slot)
}

/// Lowers a call: the arguments in order, then the call itself.
pub fn compile_function_call(
    block: &mut ir::Block,
    identifier: &Identifier,
    args: &Vec<Expression>,
) -> (result: CompileResult)
    requires
        old(block)@.frame.wf(),
    ensures
        lowered(
            old(block)@,
            final(block)@,
            result,
            spec_compile_function_call(old(block)@, identifier@, expression_views(args@)),
        ),
    decreases args,
{
    let ghost views = expression_views(args@);
    let mut argument_slots: Vec<Slot> = Vec::with_capacity(args.len());
    let mut index: usize = 0;
    while index < args.len()
        invariant
            index <= args.len(),
            views == expression_views(args@),
            block@.frame.wf(),
            old(block)@.extended_by(block@),
            spec_compile_arguments(block@, views, index as int, argument_slots@)
                == spec_compile_arguments(old(block)@, views, 0, seq![]),
        decreases args.len() - index,
    {
        let argument_slot = compile_expression(block, &args[index])?;
        argument_slots.push(argument_slot);
        index = index + 1;
    }
    let Some(identifier_symbol) = block.resolve(identifier) else {
        return Err(CompileError::unresolved_symbol(identifier));
    };
    let Symbol::Function(function, arity) = identifier_symbol else {
        return Err(CompileError::not_implemented("calling a symbol that is not a function"));
    };
    if argument_slots.len() != arity {
        return Err(CompileError::IncorrectArity(identifier.clone(), arity, argument_slots.len()));
    }
    let return_value_slot = block.push_op(ir::Opcode::CallFunction(function, argument_slots));
    Ok(return_value_slot)
}

/// The view of a label that may be absent.
pub open spec fn optional_label_view(label: Option<ir::Label>) -> Option<ir::label::LabelView> {
    match label {
        Some(label) => Some(label@),
        None => None,
    }
}

/// Emits the jumps of a predicate.
fn push_predicate_jumps(
    block: &mut ir::Block,
    condition: ir::JumpCondition,
    true_target: ir::Label,
    false_target: Option<ir::Label>,
) -> (result: CompileResult)
    requires
        old(block)@.frame.wf(),
    ensures
        lowered(
            old(block)@,
            final(block)@,
            result,
            spec_predicate_jumps(
                old(block)@,
                condition,
                true_target@,
                optional_label_view(false_target),
            ),
        ),
{
    let slot = block.push_op(Opcode::Jump(condition, true_target));
    if let Some(false_target) = false_target {
        block.push_op(Opcode::Jump(ir::JumpCondition::Unconditional, false_target));
    }
    Ok(slot)
}

/// Lowers a predicate to a jump to `true_target` that is taken where the
/// predicate holds, followed by a jump to `false_target` if there is one.
pub fn compile_predicate(
    block: &mut ir::Block<'_>,
    predicate: &Expression,
    true_target: ir::Label,
    false_target: Option<ir::Label>,
) -> (result: CompileResult)
    requires
        old(block)@.frame.wf(),
    ensures
        lowered(
            old(block)@,
            final(block)@,
            result,
            spec_compile_predicate(
                old(block)@,
                predicate@,
                true_target@,
                optional_label_view(false_target),
            ),
        ),
{
    match predicate {
        Expression::BinaryExpression(lhs, BinaryOperator::ComparisonOperator(op), rhs) => {
            let lhs = compile_expression(block, lhs)?;
            let rhs = compile_expression(block, rhs)?;
            let condition = match op {
                ComparisonOperator::GreaterThan => ir::JumpCondition::Greater(lhs, rhs),
                ComparisonOperator::LessThan => ir::JumpCondition::Less(lhs, rhs),
                ComparisonOperator::Equal => ir::JumpCondition::Equal(lhs, rhs),
                ComparisonOperator::NotEqual => ir::JumpCondition::NotEqual(lhs, rhs),
                ComparisonOperator::GreaterOrEqual => ir::JumpCondition::GreaterOrEqual(lhs, rhs),
                ComparisonOperator::LessOrEqual => ir::JumpCondition::LessOrEqual(lhs, rhs),
            };
            push_predicate_jumps(block, condition, true_target, false_target)
        },
        _ => {
            let slot = compile_expression(block, predicate)?;
            push_predicate_jumps(
                block,
                ir::JumpCondition::NotZero(slot),
                true_target,
                false_target,
            )
        },
    }
}

/// Lowers an assignment.
pub fn compile_assignment_statement(block: &mut ir::Block, assignment: &Assignment) -> (result:
    CompileResult)
    requires
        old(block)@.frame.wf(),
    ensures
        lowered(
            old(block)@,
            final(block)@,
            result,
            spec_compile_assignment_statement(old(block)@, assignment.lhs@, assignment.rhs@),
        ),
{
    let rhs = compile_expression(block, &assignment.rhs)?;
    let target = match block.resolve(&assignment.lhs) {
        None => {
            return Err(CompileError::unresolved_symbol(&assignment.lhs));
        },
        Some(Symbol::Argument(index)) => AssignmentTarget::FunctionArgument(index),
        Some(Symbol::StackVariable(offset)) => AssignmentTarget::StackVariable(offset),
        Some(Symbol::Function(_func, _arity)) => {
            return Err(CompileError::not_implemented("assignment to a function"));
        },
    };
    block.push(Instruction::Assign(target, rhs));
    Ok(rhs)
}

/// Lowers a `return`.
pub fn compile_return_statement(block: &mut ir::Block, result: &Expression) -> (slot: CompileResult)
    requires
        old(block)@.frame.wf(),
    ensures
        lowered(
            old(block)@,
            final(block)@,
            slot,
            spec_compile_return_statement(old(block)@, result@),
        ),
{
    let result = compile_expression(block, result)?;
    block.push_op(ir::Opcode::SetReturnValue(result));
    block.push_op(ir::Opcode::Return);
    Ok(result)
}

/// Lowers a variable declaration.
pub fn compile_variable_declaration(
    block: &mut ir::Block,
    declaration: &VariableDeclaration,
) -> (result: CompileResult)
    requires
        old(block)@.frame.wf(),
    ensures
        lowered(
            old(block)@,
            final(block)@,
            result,
            spec_compile_variable_declaration(
                old(block)@,
                declaration.name@,
                declaration.value@,
            ),
        ),
{
    let initial_value = compile_expression(block, &declaration.value)?;
    if !block.has_room() {
        return Err(CompileError::not_implemented("too many stack variables"));
    }
    let variable = block.insert_stack_variable(&declaration.name, initial_value);
    Ok(variable)
}

/// Lowers a statement.  The slot holds the statement's value.
pub fn compile_statement(block: &mut ir::Block, statement: &Statement) -> (result: CompileResult)
    requires
        old(block)@.frame.wf(),
    ensures
        lowered(
            old(block)@,
            final(block)@,
            result,
            spec_compile_statement(old(block)@, statement@),
        ),
    decreases statement,
{
    match statement {
        Statement::Expression(expression) => compile_expression(block, expression),
        Statement::FunctionDefinition(_definition) => compile_literal(block, &Literal::Integer(0)),
        Statement::VariableDeclaration(declaration) => {
            compile_variable_declaration(block, declaration)
        },
        Statement::Condition(condition) => {
            assert(statement@->Condition_0 =~= branch_views(condition.branches@));
            compile_condition_statement(block, condition)
        },
        Statement::Return(result) => compile_return_statement(block, result),
        Statement::Assignment(assignment) => compile_assignment_statement(block, assignment),
        Statement::Loop(loop_statement) => compile_loop_statement(block, loop_statement),
    }
}

/// Lowers a loop.  The predicate is tested after the body, which a jump
/// at the loop's start skips at first.
pub fn compile_loop_statement(block: &mut ir::Block, loop_statement: &Loop) -> (result: CompileResult)
    requires
        old(block)@.frame.wf(),
    ensures
        lowered(
            old(block)@,
            final(block)@,
            result,
            spec_compile_loop_statement(old(block)@, loop_statement@),
        ),
    decreases loop_statement,
{
    let start_label = block.new_label("loop start");
    let test_label = block.new_label("loop test");
    block.push_op(ir::Opcode::Jump(ir::JumpCondition::Unconditional, test_label.clone()));
    block.set_label(start_label.clone());
    compile_block(block, &loop_statement.block)?;
    block.set_label(test_label);
    compile_predicate(block, &loop_statement.predicate, start_label, None)
}

/// Lowers a condition.  The value is the join of the values of the
/// branches.
pub fn compile_condition_statement(block: &mut ir::Block, condition: &Condition) -> (result:
    CompileResult)
    requires
        old(block)@.frame.wf(),
    ensures
        lowered(
            old(block)@,
            final(block)@,
            result,
            spec_compile_condition_statement(old(block)@, branch_views(condition.branches@)),
        ),
    decreases condition,
{
    let end_label = block.new_label("condition end");
    let branch_count = condition.branches.len();
    let mut branch_results = Vec::<Slot>::with_capacity(branch_count);
    let ghost views = branch_views(condition.branches@);
    let ghost start = block@;
    let mut index: usize = 0;
    while index < branch_count
        invariant
            index <= branch_count == condition.branches.len(),
            views == branch_views(condition.branches@),
            block@.frame.wf(),
            old(block)@.extended_by(block@),
            end_label@ == old(block)@.next_label("condition end"@),
            start == old(block)@.with_label("condition end"@),
            spec_compile_branches(block@, views, index as int, end_label@, branch_results@)
                == spec_compile_branches(start, views, 0, end_label@, seq![]),
        decreases branch_count - index,
    {
        let is_last_branch = index + 1 == branch_count;
        let next_branch = if is_last_branch {
            None
        } else {
            Some(block.new_label("condition next"))
        };
        let branch = &condition.branches[index];
        if let Some(ref predicate) = branch.0 {
            let block_label = block.new_label("condition block");
            let false_target = match &next_branch {
                Some(next_branch) => Some(next_branch.clone()),
                None => Some(end_label.clone()),
            };
            compile_predicate(block, predicate, block_label.clone(), false_target)?;
            block.set_label(block_label);
        }
        let result = compile_block(block, &branch.1)?;
        branch_results.push(result);
        if let Some(next_branch) = next_branch {
            block.push_op(ir::Opcode::Jump(ir::JumpCondition::Unconditional, end_label.clone()));
            block.set_label(next_branch);
        }
        index = index + 1;
    }
    block.set_label(end_label);
    let result = block.push_op(ir::Opcode::PhiEnd(branch_results));
    Ok(result)
}

/// Lowers the statements of a block.  The value is that of the last
/// statement.
pub fn compile_block(ir_block: &mut ir::Block, block: &Block) -> (result: CompileResult)
    requires
        old(ir_block)@.frame.wf(),
    ensures
        lowered(
            old(ir_block)@,
            final(ir_block)@,
            result,
            spec_compile_block(old(ir_block)@, block@, 0, None),
        ),
    decreases block,
{
    let mut result: Option<Slot> = None;
    let ghost views = block@;
    let mut index: usize = 0;
    while index < block.0.len()
        invariant
            index <= block.0.len(),
            views == block@,
            ir_block@.frame.wf(),
            old(ir_block)@.extended_by(ir_block@),
            spec_compile_block(ir_block@, views, index as int, result) == spec_compile_block(
                old(ir_block)@,
                views,
                0,
                None,
            ),
        decreases block.0.len() - index,
    {
        result = Some(compile_statement(ir_block, &block.0[index])?);
        index = index + 1;
    }
    match result {
        Some(result) => Ok(result),
        None => compile_literal(ir_block, &Literal::Integer(0)),
    }
}

/// Lowers the body of a function, up to and with its first `return`, and
/// returns the value of the last statement where the body has no `return`.
pub fn compile_function_body(ir_block: &mut ir::Block, block: &Block) -> (result: CompileResult)
    requires
        old(ir_block)@.frame.wf(),
    ensures
        lowered(
            old(ir_block)@,
            final(ir_block)@,
            result,
            spec_compile_function_body(old(ir_block)@, block@),
        ),
{
    let mut result: Option<Slot> = None;
    let mut returned = false;
    let ghost views = block@;
    let mut index: usize = 0;
    while index < block.0.len() && !returned
        invariant
            index <= block.0.len(),
            views == block@,
            ir_block@.frame.wf(),
            old(ir_block)@.extended_by(ir_block@),
            returned ==> result is Some,
            (if returned {
                (ir_block@, Ok::<_, CompileErrorView>((result, true)))
            } else {
                spec_compile_body_statements(ir_block@, views, index as int, result)
            }) == spec_compile_body_statements(old(ir_block)@, views, 0, None),
        decreases
            (block.0.len() - index) + (if returned {
                0int
            } else {
                1int
            }),
    {
        let statement = &block.0[index];
        result = Some(compile_statement(ir_block, statement)?);
        if let Statement::Return(_) = statement {
            returned = true;
        } else {
            index = index + 1;
        }
    }
    let result = match result {
        Some(result) => result,
        None => compile_literal(ir_block, &Literal::Integer(0))?,
    };
    if !returned {
        ir_block.push_op(ir::Opcode::SetReturnValue(result));
        ir_block.push_op(ir::Opcode::Return);
    }
    Ok(result)
}

/// Lowers the body of a function whose names live in `stack_frame` to a new
/// block.  The block is returned whether or not the lowering succeeds; it
/// holds the scope.
pub fn lower<'a>(stack_frame: StackFrame<'a>, block: &Block) -> (result: (
    ir::Block<'a>,
    CompileResult,
))
    requires
        stack_frame@.wf(),
    ensures
        lowered(
            empty_block(stack_frame@),
            result.0@,
            result.1,
            spec_compile_function_body(empty_block(stack_frame@), block@),
        ),
{
    let mut ir_block = ir::Block::new(stack_frame);
    let result = compile_function_body(&mut ir_block, block);
    (ir_block, result)
}

/// What compiling a function's body gives: the scope with the body's
/// stack variables declared in it, and the function's code.
pub open spec fn spec_compile(frame: StackFrameView, statements: Seq<StatementView>) -> Result<
    (StackFrameView, ProgramView),
    CompilerErrorView,
> {
    let (block, result) = spec_compile_function_body(empty_block(frame), statements);
    match result {
        Err(error) => Err(CompilerErrorView::CompileError(error)),
        Ok(_) => match spec_codegen(block) {
            Err(error) => Err(CompilerErrorView::CodegenError(error)),
            Ok(program) => Ok((block.frame, program)),
        },
    }
}

/// Compiles the body of a function whose names live in `stack_frame`.
///
/// The body is lowered, registers are allocated and the machine
/// instructions are selected.  Stack variables that the body declares are
/// declared in the scope.  Where compilation fails, the scope is left as it
/// was.
pub fn compile<'a>(stack_frame: &mut StackFrame<'a>, block: &Block) -> (result: Result<
    Program,
    CompilerError,
>)
    requires
        old(stack_frame)@.wf(),
    ensures
        match spec_compile(old(stack_frame)@, block@) {
            Ok((frame, program)) => result is Ok && result->Ok_0@ == program
                && final(stack_frame)@ == frame,
            Err(error) => result is Err && result->Err_0@ == error
                && final(stack_frame)@ == old(stack_frame)@,
        },
        final(stack_frame)@.wf(),
{
    let mark = stack_frame.mark();
    let ghost earlier = stack_frame@;
    let mut frame = StackFrame::new();
    core::mem::swap(&mut frame, stack_frame);
    let (ir_block, lowered) = lower(frame, block);
    let generated = match lowered {
        Err(error) => Err(CompilerError::CompileError(error)),
        Ok(_) => match codegen(&ir_block) {
            Err(error) => Err(CompilerError::CodegenError(error)),
            Ok(function) => Ok(function),
        },
    };
    let mut frame = ir_block.into_stack_frame();
    if generated.is_err() {
        frame.restore(mark, Ghost(earlier));
    }
    core::mem::swap(&mut frame, stack_frame);
    generated
}

} // verus!
