use vstd::prelude::*;
use super::expression::parse_expression;
use super::grammar::{
    remaining, spec_parse_arguments_list, spec_parse_assignment, spec_parse_block,
    spec_parse_block_inner, spec_parse_condition, spec_parse_else_branch,
    spec_parse_else_if_branches, spec_parse_expression, spec_parse_function_definition,
    spec_parse_guarded_block, spec_parse_more_parameters,
    spec_parse_more_statements, spec_parse_return, spec_parse_statement,
    spec_parse_variable_declaration, spec_parse_while_loop, Parsed,
};
use super::identifier::parse_identifier;
use super::syntax::{
    branch_views, identifier_views, statement_views, Assignment, Block, Condition, Expression,
    ExpressionView, FunctionDefinition, Identifier, Loop, LoopPredicatePosition, Statement,
    StatementView, VariableDeclaration,
};
use super::tokens::{
    assignment_token, close_brace_token, comma_token, def_keyword, else_keyword, if_keyword,
    let_keyword, open_brace_token, return_keyword, while_keyword,
};
use super::util::{parsed_as, within, ParseError, ParseResult, Source, Token};

verus! {

/// A block in braces.
pub fn parse_block(source: &Source, pos: usize) -> (result: ParseResult<Block>)
    requires
        source.wf(),
    ensures
        parsed_as(result, spec_parse_block(source@, pos as int), pos),
        within(result, pos, source@.len()),
    decreases remaining(source@, pos as int), 0nat,
{
    let Ok((open_rest, _)) = open_brace_token(source, pos) else {
        return Err(ParseError { position: pos });
    };
    if open_rest <= pos {
        return Err(ParseError { position: pos });
    }
    let Ok((inner_rest, inner)) = parse_block_inner(source, open_rest) else {
        return Err(ParseError { position: pos });
    };
    let Ok((rest, _)) = close_brace_token(source, inner_rest) else {
        return Err(ParseError { position: pos });
    };
    Ok((rest, inner))
}

/// One statement or more.
pub fn parse_block_inner(source: &Source, pos: usize) -> (result: ParseResult<Block>)
    requires
        source.wf(),
    ensures
        parsed_as(result, spec_parse_block_inner(source@, pos as int), pos),
        within(result, pos, source@.len()),
    decreases remaining(source@, pos as int), 9nat,
{
    let Ok((first_rest, first)) = parse_statement(source, pos) else {
        return Err(ParseError { position: pos });
    };
    if first_rest <= pos {
        return Err(ParseError { position: pos });
    }
    let ghost first_view = first.value@;
    let mut statements: Vec<Statement> = Vec::new();
    statements.push(first.value);
    assert(statement_views(statements@) =~= seq![first_view]);
    let mut rest = first_rest;
    loop
        invariant
            source.wf(),
            pos < first_rest <= rest <= source@.len(),
            spec_parse_statement(source@, pos as int) is Some,
            spec_parse_statement(source@, pos as int)->0.rest == first_rest,
            spec_parse_statement(source@, pos as int)->0.value == first_view,
            spec_parse_more_statements(source@, rest as int, statement_views(statements@))
                == spec_parse_more_statements(source@, first_rest as int, seq![first_view]),
        decreases source@.len() - rest,
    {
        let Ok((next_rest, next)) = parse_statement(source, rest) else {
            let value = Block(statements);
            assert(value@ =~= statement_views(statements@));
            return Ok((rest, Token { position: pos, value }));
        };
        if next_rest <= rest {
            let value = Block(statements);
            assert(value@ =~= statement_views(statements@));
            return Ok((rest, Token { position: pos, value }));
        }
        let ghost before = statement_views(statements@);
        let ghost next_view = next.value@;
        statements.push(next.value);
        assert(statement_views(statements@) =~= before.push(next_view));
        rest = next_rest;
    }
}

/// The parameters of a function definition.
fn parse_arguments_list(source: &Source, pos: usize) -> (result: ParseResult<Vec<Identifier>>)
    requires
        source.wf(),
    ensures
        match spec_parse_arguments_list(source@, pos as int) {
            Some(parsed) => result is Ok && result->Ok_0.0 == parsed.rest
                && result->Ok_0.1.position == parsed.position && identifier_views(
                result->Ok_0.1.value@,
            ) == parsed.value,
            None => result == Err::<(usize, Token<Vec<Identifier>>), ParseError>(
                ParseError { position: pos },
            ),
        },
        within(result, pos, source@.len()),
{
    let start = source.skip_space(pos);
    if start >= source.len() || !source.has_char(start, '(') {
        return Err(ParseError { position: pos });
    }
    let mut parameters: Vec<Identifier> = Vec::new();
    assert(identifier_views(parameters@) =~= seq![]);
    let mut rest = start + 1;
    if let Ok((first_rest, first)) = parse_identifier(source, start + 1) {
        let ghost first_view = first.value@;
        parameters.push(first.value);
        assert(identifier_views(parameters@) =~= seq![first_view]);
        rest = first_rest;
        loop
            invariant_except_break
                source.wf(),
                start < first_rest <= rest <= source@.len(),
                spec_parse_more_parameters(source@, rest as int, identifier_views(parameters@))
                    == spec_parse_more_parameters(source@, first_rest as int, seq![first_view]),
            ensures
                start < rest <= source@.len(),
                (rest as int, identifier_views(parameters@)) == spec_parse_more_parameters(
                    source@,
                    first_rest as int,
                    seq![first_view],
                ),
            decreases source@.len() - rest,
        {
            let Ok((after_comma, _)) = comma_token(source, rest) else {
                break ;
            };
            let Ok((next_rest, next)) = parse_identifier(source, after_comma) else {
                break ;
            };
            if next_rest <= rest {
                break ;
            }
            let ghost before = identifier_views(parameters@);
            let ghost next_view = next.value@;
            parameters.push(next.value);
            assert(identifier_views(parameters@) =~= before.push(next_view));
            rest = next_rest;
        }
    }
    if rest < source.len() && source.has_char(rest, ')') {
        Ok((rest + 1, Token { position: start, value: parameters }))
    } else {
        Err(ParseError { position: pos })
    }
}

/// A function definition.
pub fn parse_function_definition(source: &Source, pos: usize) -> (result: ParseResult<
    FunctionDefinition,
>)
    requires
        source.wf(),
    ensures
        parsed_as(result, spec_parse_function_definition(source@, pos as int), pos),
        within(result, pos, source@.len()),
    decreases remaining(source@, pos as int), 3nat,
{
    let Ok((keyword_rest, def_token)) = def_keyword(source, pos) else {
        return Err(ParseError { position: pos });
    };
    let Ok((name_rest, name)) = parse_identifier(source, keyword_rest) else {
        return Err(ParseError { position: pos });
    };
    let Ok((parameters_rest, args)) = parse_arguments_list(source, name_rest) else {
        return Err(ParseError { position: pos });
    };
    if parameters_rest <= pos {
        return Err(ParseError { position: pos });
    }
    let Ok((rest, body)) = parse_block(source, parameters_rest) else {
        return Err(ParseError { position: pos });
    };
    let value = FunctionDefinition { name: name.value, args: args.value, body: body.value };
    assert(value@.args =~= identifier_views(args.value@));
    Ok((rest, Token { position: def_token.position, value }))
}

/// A function definition, as a statement.
pub fn parse_function_definition_statement(source: &Source, pos: usize) -> (result: ParseResult<
    Statement,
>)
    requires
        source.wf(),
    ensures
        match spec_parse_function_definition(source@, pos as int) {
            Some(parsed) => result is Ok && result->Ok_0.0 == parsed.rest
                && result->Ok_0.1.position == parsed.position && result->Ok_0.1.value@
                == StatementView::FunctionDefinition(parsed.value),
            None => result == Err::<(usize, Token<Statement>), ParseError>(
                ParseError { position: pos },
            ),
        },
        within(result, pos, source@.len()),
    decreases remaining(source@, pos as int), 5nat,
{
    let (rest, definition) = parse_function_definition(source, pos)?;
    let ghost view = definition.value@;
    let value = Statement::FunctionDefinition(definition.value);
    assert(value@->FunctionDefinition_0.args =~= view.args);
    Ok((rest, Token { position: definition.position, value }))
}

/// A variable declaration.
pub fn parse_variable_declaration(source: &Source, pos: usize) -> (result: ParseResult<
    VariableDeclaration,
>)
    requires
        source.wf(),
    ensures
        parsed_as(result, spec_parse_variable_declaration(source@, pos as int), pos),
        within(result, pos, source@.len()),
{
    let Ok((keyword_rest, let_token)) = let_keyword(source, pos) else {
        return Err(ParseError { position: pos });
    };
    let Ok((name_rest, name)) = parse_identifier(source, keyword_rest) else {
        return Err(ParseError { position: pos });
    };
    let Ok((equals_rest, _)) = assignment_token(source, name_rest) else {
        return Err(ParseError { position: pos });
    };
    let Ok((rest, initial_value)) = parse_expression(source, equals_rest) else {
        return Err(ParseError { position: pos });
    };
    let value = VariableDeclaration { name: name.value, value: initial_value.value };
    Ok((rest, Token { position: let_token.position, value }))
}

/// A variable declaration, as a statement.
pub fn parse_variable_declaration_statement(source: &Source, pos: usize) -> (result: ParseResult<
    Statement,
>)
    requires
        source.wf(),
    ensures
        match spec_parse_variable_declaration(source@, pos as int) {
            Some(parsed) => result is Ok && result->Ok_0.0 == parsed.rest
                && result->Ok_0.1.position == parsed.position && result->Ok_0.1.value@
                == StatementView::VariableDeclaration(parsed.value.0, parsed.value.1),
            None => result == Err::<(usize, Token<Statement>), ParseError>(
                ParseError { position: pos },
            ),
        },
        within(result, pos, source@.len()),
{
    let (rest, declaration) = parse_variable_declaration(source, pos)?;
    Ok(
        (
            rest,
            Token {
                position: declaration.position,
                value: Statement::VariableDeclaration(declaration.value),
            },
        ),
    )
}

/// Whether a guarded block is what the grammar reads.
pub open spec fn guarded_as(
    result: Result<(usize, Expression, Block), ParseError>,
    expected: Option<Parsed<(ExpressionView, Seq<StatementView>)>>,
) -> bool {
    match expected {
        Some(parsed) => result is Ok && result->Ok_0.0 == parsed.rest && result->Ok_0.1@
            == parsed.value.0 && result->Ok_0.2@ == parsed.value.1,
        None => result is Err,
    }
}

/// A predicate and the block that it guards.
fn parse_guarded_block(source: &Source, pos: usize, Ghost(start): Ghost<int>) -> (result: Result<
    (usize, Expression, Block),
    ParseError,
>)
    requires
        source.wf(),
        0 <= start < pos,
    ensures
        guarded_as(result, spec_parse_guarded_block(source@, pos as int, start)),
        result is Ok ==> pos <= result->Ok_0.0 <= source@.len(),
    decreases remaining(source@, start), 1nat,
{
    let Ok((predicate_rest, predicate)) = parse_expression(source, pos) else {
        return Err(ParseError { position: pos });
    };
    let Ok((rest, block)) = parse_block(source, predicate_rest) else {
        return Err(ParseError { position: pos });
    };
    Ok((rest, predicate.value, block.value))
}

/// A condition.
fn parse_condition(source: &Source, pos: usize) -> (result: ParseResult<Condition>)
    requires
        source.wf(),
    ensures
        parsed_as(result, spec_parse_condition(source@, pos as int), pos),
        within(result, pos, source@.len()),
    decreases remaining(source@, pos as int), 3nat,
{
    let Ok((keyword_rest, if_token)) = if_keyword(source, pos) else {
        return Err(ParseError { position: pos });
    };
    if keyword_rest <= pos {
        return Err(ParseError { position: pos });
    }
    let Ok((first_rest, if_predicate, if_block)) = parse_guarded_block(
        source,
        keyword_rest,
        Ghost(pos as int),
    ) else {
        return Err(ParseError { position: pos });
    };
    if first_rest <= pos {
        return Err(ParseError { position: pos });
    }
    let ghost first_view = (Some(if_predicate@), if_block@);
    let mut branches: Vec<(Option<Expression>, Block)> = Vec::new();
    branches.push((Some(if_predicate), if_block));
    assert(branch_views(branches@) =~= seq![first_view]);
    let mut rest = first_rest;
    loop
        invariant_except_break
            source.wf(),
            pos < first_rest <= rest <= source@.len(),
            spec_parse_else_if_branches(source@, rest as int, branch_views(branches@))
                == spec_parse_else_if_branches(source@, first_rest as int, seq![first_view]),
        ensures
            pos < rest <= source@.len(),
            (rest as int, branch_views(branches@)) == spec_parse_else_if_branches(
                source@,
                first_rest as int,
                seq![first_view],
            ),
        decreases source@.len() - rest,
    {
        let Ok((else_rest, _)) = else_keyword(source, rest) else {
            break ;
        };
        let Ok((if_rest, _)) = if_keyword(source, else_rest) else {
            break ;
        };
        if if_rest <= rest {
            assert(spec_parse_guarded_block(source@, if_rest as int, rest as int) is None);
            break ;
        }
        let Ok((next_rest, predicate, block)) = parse_guarded_block(
            source,
            if_rest,
            Ghost(rest as int),
        ) else {
            break ;
        };
        if next_rest <= rest {
            break ;
        }
        let ghost before = branch_views(branches@);
        let ghost next_view = (Some(predicate@), block@);
        branches.push((Some(predicate), block));
        assert(branch_views(branches@) =~= before.push(next_view));
        rest = next_rest;
    }
    match parse_else_branch(source, rest, Ghost(pos as int)) {
        Ok((last_rest, else_block)) => {
            let ghost before = branch_views(branches@);
            let ghost last_view = (None::<ExpressionView>, else_block@);
            branches.push((None, else_block));
            assert(branch_views(branches@) =~= before.push(last_view));
            Ok((last_rest, Token { position: if_token.position, value: Condition { branches } }))
        },
        Err(_) => Ok((rest, Token { position: if_token.position, value: Condition { branches } })),
    }
}

/// The `else` branch.
fn parse_else_branch(source: &Source, pos: usize, Ghost(start): Ghost<int>) -> (result: Result<
    (usize, Block),
    ParseError,
>)
    requires
        source.wf(),
        0 <= start < pos,
    ensures
        match spec_parse_else_branch(source@, pos as int, start) {
            Some(parsed) => result is Ok && result->Ok_0.0 == parsed.rest && result->Ok_0.1@
                == parsed.value,
            None => result is Err,
        },
        result is Ok ==> pos <= result->Ok_0.0 <= source@.len(),
    decreases remaining(source@, start), 1nat,
{
    let Ok((keyword_rest, _)) = else_keyword(source, pos) else {
        return Err(ParseError { position: pos });
    };
    let Ok((rest, block)) = parse_block(source, keyword_rest) else {
        return Err(ParseError { position: pos });
    };
    Ok((rest, block.value))
}

/// A condition, as a statement.
pub fn parse_condition_statement(source: &Source, pos: usize) -> (result: ParseResult<Statement>)
    requires
        source.wf(),
    ensures
        match spec_parse_condition(source@, pos as int) {
            Some(parsed) => result is Ok && result->Ok_0.0 == parsed.rest
                && result->Ok_0.1.position == parsed.position && result->Ok_0.1.value@
                == StatementView::Condition(parsed.value),
            None => result == Err::<(usize, Token<Statement>), ParseError>(
                ParseError { position: pos },
            ),
        },
        within(result, pos, source@.len()),
    decreases remaining(source@, pos as int), 5nat,
{
    let (rest, condition) = parse_condition(source, pos)?;
    let ghost view = condition.value@;
    let value = Statement::Condition(condition.value);
    assert(value@->Condition_0 =~= view);
    Ok((rest, Token { position: condition.position, value }))
}

/// A `while` loop, as a statement.
pub fn parse_while_loop_statement(source: &Source, pos: usize) -> (result: ParseResult<Statement>)
    requires
        source.wf(),
    ensures
        match spec_parse_while_loop(source@, pos as int) {
            Some(parsed) => result is Ok && result->Ok_0.0 == parsed.rest
                && result->Ok_0.1.position == parsed.position && result->Ok_0.1.value@
                == StatementView::Loop(parsed.value),
            None => result == Err::<(usize, Token<Statement>), ParseError>(
                ParseError { position: pos },
            ),
        },
        within(result, pos, source@.len()),
    decreases remaining(source@, pos as int), 3nat,
{
    let Ok((keyword_rest, while_token)) = while_keyword(source, pos) else {
        return Err(ParseError { position: pos });
    };
    if keyword_rest <= pos {
        return Err(ParseError { position: pos });
    }
    let Ok((rest, predicate, block)) = parse_guarded_block(
        source,
        keyword_rest,
        Ghost(pos as int),
    ) else {
        return Err(ParseError { position: pos });
    };
    let value = Statement::Loop(
        Loop { predicate_position: LoopPredicatePosition::BeforeBlock, predicate, block },
    );
    Ok((rest, Token { position: while_token.position, value }))
}

/// A loop, as a statement.
pub fn parse_loop_statement(source: &Source, pos: usize) -> (result: ParseResult<Statement>)
    requires
        source.wf(),
    ensures
        match spec_parse_while_loop(source@, pos as int) {
            Some(parsed) => result is Ok && result->Ok_0.0 == parsed.rest
                && result->Ok_0.1.position == parsed.position && result->Ok_0.1.value@
                == StatementView::Loop(parsed.value),
            None => result == Err::<(usize, Token<Statement>), ParseError>(
                ParseError { position: pos },
            ),
        },
        within(result, pos, source@.len()),
    decreases remaining(source@, pos as int), 5nat,
{
    parse_while_loop_statement(source, pos)
}

/// `return` and the value.
pub fn parse_return_statement(source: &Source, pos: usize) -> (result: ParseResult<Statement>)
    requires
        source.wf(),
    ensures
        match spec_parse_return(source@, pos as int) {
            Some(parsed) => result is Ok && result->Ok_0.0 == parsed.rest
                && result->Ok_0.1.position == parsed.position && result->Ok_0.1.value@
                == StatementView::Return(parsed.value),
            None => result == Err::<(usize, Token<Statement>), ParseError>(
                ParseError { position: pos },
            ),
        },
        within(result, pos, source@.len()),
{
    let Ok((keyword_rest, return_token)) = return_keyword(source, pos) else {
        return Err(ParseError { position: pos });
    };
    let Ok((rest, result)) = parse_expression(source, keyword_rest) else {
        return Err(ParseError { position: pos });
    };
    Ok((rest, Token { position: return_token.position, value: Statement::Return(result.value) }))
}

/// An assignment, as a statement.
pub fn parse_assignment_statement(source: &Source, pos: usize) -> (result: ParseResult<Statement>)
    requires
        source.wf(),
    ensures
        match spec_parse_assignment(source@, pos as int) {
            Some(parsed) => result is Ok && result->Ok_0.0 == parsed.rest
                && result->Ok_0.1.position == parsed.position && result->Ok_0.1.value@
                == StatementView::Assignment(parsed.value.0, parsed.value.1),
            None => result == Err::<(usize, Token<Statement>), ParseError>(
                ParseError { position: pos },
            ),
        },
        within(result, pos, source@.len()),
{
    let Ok((name_rest, lhs)) = parse_identifier(source, pos) else {
        return Err(ParseError { position: pos });
    };
    let Ok((equals_rest, _)) = assignment_token(source, name_rest) else {
        return Err(ParseError { position: pos });
    };
    let Ok((rest, rhs)) = parse_expression(source, equals_rest) else {
        return Err(ParseError { position: pos });
    };
    let value = Statement::Assignment(Assignment { lhs: lhs.value, rhs: rhs.value });
    Ok((rest, Token { position: lhs.position, value }))
}

/// An expression, as a statement.
pub fn parse_expression_statement(source: &Source, pos: usize) -> (result: ParseResult<Statement>)
    requires
        source.wf(),
    ensures
        match spec_parse_expression(source@, pos as int) {
            Some(parsed) => result is Ok && result->Ok_0.0 == parsed.rest
                && result->Ok_0.1.position == parsed.position && result->Ok_0.1.value@
                == StatementView::Expression(parsed.value),
            None => result == Err::<(usize, Token<Statement>), ParseError>(
                ParseError { position: pos },
            ),
        },
        within(result, pos, source@.len()),
{
    let (rest, expression) = parse_expression(source, pos)?;
    Ok(
        (
            rest,
            Token { position: expression.position, value: Statement::Expression(expression.value) },
        ),
    )
}

/// A statement.
pub fn parse_statement(source: &Source, pos: usize) -> (result: ParseResult<Statement>)
    requires
        source.wf(),
    ensures
        parsed_as(result, spec_parse_statement(source@, pos as int), pos),
        within(result, pos, source@.len()),
    decreases remaining(source@, pos as int), 6nat,
{
    if let Ok(parsed) = parse_function_definition_statement(source, pos) {
        return Ok(parsed);
    }
    if let Ok(parsed) = parse_variable_declaration_statement(source, pos) {
        return Ok(parsed);
    }
    if let Ok(parsed) = parse_condition_statement(source, pos) {
        return Ok(parsed);
    }
    if let Ok(parsed) = parse_loop_statement(source, pos) {
        return Ok(parsed);
    }
    if let Ok(parsed) = parse_return_statement(source, pos) {
        return Ok(parsed);
    }
    if let Ok(parsed) = parse_assignment_statement(source, pos) {
        return Ok(parsed);
    }
    parse_expression_statement(source, pos)
}

} // verus!
