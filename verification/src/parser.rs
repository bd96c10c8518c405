//! The surface syntax: the syntax tree and the parser that builds it.

pub mod copy;
pub mod expression;
pub mod grammar;
pub mod identifier;
pub mod literal;
pub mod statement;
pub mod syntax;
pub mod text;
pub mod tokens;
pub mod util;

use vstd::prelude::*;

use self::grammar::spec_parse;

pub use self::expression::{
    parse_binary_operator_expression, parse_binary_operators, parse_expression,
    parse_factor_expression, parse_function_call_expression, parse_identifier_expression,
    parse_literal_expression,
};
pub use self::identifier::{identifier_name, parse_identifier};
pub use self::literal::parse_literal;
pub use self::statement::{
    parse_assignment_statement, parse_block, parse_block_inner, parse_condition_statement,
    parse_expression_statement, parse_function_definition, parse_function_definition_statement,
    parse_loop_statement, parse_return_statement, parse_statement, parse_variable_declaration,
    parse_variable_declaration_statement, parse_while_loop_statement,
};
pub use self::syntax::{
    ArithmeticOperator, Assignment, BinaryOperator, Block, ComparisonOperator, Condition,
    Expression, FunctionDefinition, Identifier, Literal, Loop, LoopPredicatePosition, Statement,
    VariableDeclaration,
};
pub use self::util::{parsed_as, within, ParseError, ParseResult, Source, Token};

verus! {

/// Parses an input: one statement or more.  The position in the result is
/// that of the first character that was not read.
pub fn parse(line: &str) -> (result: ParseResult<Block>)
    ensures
        parsed_as(result, spec_parse(line@), 0),
        within(result, 0, line@.len()),
{
    let source = Source::new(line);
    parse_block_inner(&source, 0)
}

} // verus!
