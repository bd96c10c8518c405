use vstd::prelude::*;
use super::grammar::{
    remaining, spec_comparison_operator, spec_fold_operators, spec_operator, spec_parse_arguments,
    spec_parse_binary_operators, spec_parse_bracketed, spec_parse_expression, spec_parse_factor,
    spec_parse_function_call, spec_parse_more_arguments, spec_parse_operand, };
use super::identifier::parse_identifier;
use super::literal::parse_literal;
use super::syntax::{
    expression_views, ArithmeticOperator, BinaryOperator, ComparisonOperator, Expression,
    ExpressionView,
};
use super::tokens::{
    add_token, comma_token, divide_token, equality_token, greater_or_equal_token,
    greater_than_token, inequality_token, less_or_equal_token, less_than_token, multiply_token,
    subtract_token,
};
use super::util::{parsed_as, within, ParseError, ParseResult, Source, Token};

verus! {

/// Whether an operator and the position after it are what the grammar
/// reads.
pub open spec fn operator_as(
    result: Option<(usize, BinaryOperator)>,
    expected: Option<(int, BinaryOperator)>,
) -> bool {
    match expected {
        Some((rest, operator)) => result is Some && result->Some_0.0 == rest && result->Some_0.1
            == operator,
        None => result is None,
    }
}

fn comparison_operator(source: &Source, pos: usize) -> (result: Option<(usize, BinaryOperator)>)
    ensures
        operator_as(result, spec_comparison_operator(source@, pos as int)),
        result is Some ==> pos <= result->Some_0.0 <= source@.len(),
{
    if let Ok((rest, _)) = equality_token(source, pos) {
        return Some((rest, BinaryOperator::ComparisonOperator(ComparisonOperator::Equal)));
    }
    if let Ok((rest, _)) = inequality_token(source, pos) {
        return Some((rest, BinaryOperator::ComparisonOperator(ComparisonOperator::NotEqual)));
    }
    if let Ok((rest, _)) = less_or_equal_token(source, pos) {
        return Some((rest, BinaryOperator::ComparisonOperator(ComparisonOperator::LessOrEqual)));
    }
    if let Ok((rest, _)) = less_than_token(source, pos) {
        return Some((rest, BinaryOperator::ComparisonOperator(ComparisonOperator::LessThan)));
    }
    if let Ok((rest, _)) = greater_or_equal_token(source, pos) {
        return Some(
            (rest, BinaryOperator::ComparisonOperator(ComparisonOperator::GreaterOrEqual)),
        );
    }
    if let Ok((rest, _)) = greater_than_token(source, pos) {
        return Some((rest, BinaryOperator::ComparisonOperator(ComparisonOperator::GreaterThan)));
    }
    None
}

/// An operator of a level of precedence.
fn operator_token(source: &Source, pos: usize, precedence: usize) -> (result: Option<
    (usize, BinaryOperator),
>)
    ensures
        operator_as(result, spec_operator(source@, pos as int, precedence as int)),
        result is Some ==> pos <= result->Some_0.0 <= source@.len(),
{
    if precedence == 1 {
        comparison_operator(source, pos)
    } else if precedence == 2 {
        if let Ok((rest, _)) = add_token(source, pos) {
            return Some((rest, BinaryOperator::ArithmeticOperator(ArithmeticOperator::Add)));
        }
        if let Ok((rest, _)) = subtract_token(source, pos) {
            return Some((rest, BinaryOperator::ArithmeticOperator(ArithmeticOperator::Subtract)));
        }
        None
    } else {
        if let Ok((rest, _)) = multiply_token(source, pos) {
            return Some((rest, BinaryOperator::ArithmeticOperator(ArithmeticOperator::Multiply)));
        }
        if let Ok((rest, _)) = divide_token(source, pos) {
            return Some((rest, BinaryOperator::ArithmeticOperator(ArithmeticOperator::Divide)));
        }
        None
    }
}

/// An expression.
pub fn parse_expression(source: &Source, pos: usize) -> (result: ParseResult<Expression>)
    requires
        source.wf(),
    ensures
        parsed_as(result, spec_parse_expression(source@, pos as int), pos),
        within(result, pos, source@.len()),
    decreases remaining(source@, pos as int), 20nat,
{
    parse_binary_operators(source, pos, 1)
}

/// An expression whose operators are of the first level of precedence or
/// bind tighter.
pub fn parse_binary_operator_expression(source: &Source, pos: usize) -> (result: ParseResult<
    Expression,
>)
    requires
        source.wf(),
    ensures
        parsed_as(result, spec_parse_binary_operators(source@, pos as int, 1), pos),
        within(result, pos, source@.len()),
{
    parse_binary_operators(source, pos, 1)
}

/// The operands of a level of precedence and the operators between them.
/// The levels are 1, for comparisons, 2, for `+` and `-`, and 3, for `*`
/// and `/`.
pub fn parse_binary_operators(source: &Source, pos: usize, precedence: usize) -> (result:
    ParseResult<Expression>)
    requires
        source.wf(),
    ensures
        parsed_as(
            result,
            spec_parse_binary_operators(source@, pos as int, precedence as int),
            pos,
        ),
        within(result, pos, source@.len()),
    decreases remaining(source@, pos as int), (18 - 2 * precedence) as nat,
{
    if precedence < 1 || precedence > 3 {
        return Err(ParseError { position: pos });
    }
    let (first_rest, lhs) = parse_operand(source, pos, precedence)?;
    if first_rest <= pos {
        return Err(ParseError { position: pos });
    }
    let position = lhs.position;
    let ghost first = lhs.value@;
    let mut value = lhs.value;
    let mut rest = first_rest;
    loop
        invariant
            source.wf(),
            1 <= precedence <= 3,
            pos < first_rest <= rest <= source@.len(),
            spec_parse_operand(source@, pos as int, precedence as int) == Some(
                super::grammar::Parsed { rest: first_rest as int, position: position as int, value: first },
            ),
            spec_fold_operators(source@, rest as int, precedence as int, value@)
                == spec_fold_operators(source@, first_rest as int, precedence as int, first),
        decreases source@.len() - rest,
    {
        let Some((after_operator, operator)) = operator_token(source, rest, precedence) else {
            return Ok((rest, Token { position, value }));
        };
        if after_operator <= rest {
            return Ok((rest, Token { position, value }));
        }
        let Ok((next_rest, rhs)) = parse_operand(source, after_operator, precedence) else {
            return Ok((rest, Token { position, value }));
        };
        if next_rest <= rest {
            return Ok((rest, Token { position, value }));
        }
        value = Expression::BinaryExpression(Box::new(value), operator, Box::new(rhs.value));
        rest = next_rest;
    }
}

/// An operand of a level of precedence.
fn parse_operand(source: &Source, pos: usize, precedence: usize) -> (result: ParseResult<
    Expression,
>)
    requires
        source.wf(),
    ensures
        parsed_as(result, spec_parse_operand(source@, pos as int, precedence as int), pos),
        within(result, pos, source@.len()),
    decreases remaining(source@, pos as int), (17 - 2 * precedence) as nat,
{
    if 1 <= precedence && precedence < 3 {
        parse_binary_operators(source, pos, precedence + 1)
    } else if precedence == 3 {
        parse_factor_expression(source, pos)
    } else {
        Err(ParseError { position: pos })
    }
}

/// A factor: an expression in parentheses, a call, a literal or an
/// identifier.
pub fn parse_factor_expression(source: &Source, pos: usize) -> (result: ParseResult<Expression>)
    requires
        source.wf(),
    ensures
        parsed_as(result, spec_parse_factor(source@, pos as int), pos),
        within(result, pos, source@.len()),
    decreases remaining(source@, pos as int), 5nat,
{
    if let Ok(parsed) = parse_bracketed(source, pos) {
        return Ok(parsed);
    }
    if let Ok(parsed) = parse_function_call_expression(source, pos) {
        return Ok(parsed);
    }
    if let Ok(parsed) = parse_literal_expression(source, pos) {
        return Ok(parsed);
    }
    parse_identifier_expression(source, pos)
}

/// A literal, as an expression.
pub fn parse_literal_expression(source: &Source, pos: usize) -> (result: ParseResult<Expression>)
    requires
        source.wf(),
    ensures
        match super::grammar::spec_parse_literal(source@, pos as int) {
            Some(literal) => result is Ok && result->Ok_0.0 == literal.rest
                && result->Ok_0.1.position == literal.position && result->Ok_0.1.value@
                == ExpressionView::Literal(literal.value),
            None => result == Err::<(usize, Token<Expression>), ParseError>(
                ParseError { position: pos },
            ),
        },
        within(result, pos, source@.len()),
{
    let (rest, literal) = parse_literal(source, pos)?;
    Ok((rest, Token { position: literal.position, value: Expression::Literal(literal.value) }))
}

/// An identifier, as an expression.
pub fn parse_identifier_expression(source: &Source, pos: usize) -> (result: ParseResult<
    Expression,
>)
    requires
        source.wf(),
    ensures
        match super::grammar::spec_parse_identifier(source@, pos as int) {
            Some(identifier) => result is Ok && result->Ok_0.0 == identifier.rest
                && result->Ok_0.1.position == identifier.position && result->Ok_0.1.value@
                == ExpressionView::Identifier(identifier.value),
            None => result == Err::<(usize, Token<Expression>), ParseError>(
                ParseError { position: pos },
            ),
        },
        within(result, pos, source@.len()),
{
    let (rest, identifier) = parse_identifier(source, pos)?;
    Ok(
        (
            rest,
            Token { position: identifier.position, value: Expression::Identifier(identifier.value) },
        ),
    )
}

/// An expression in parentheses.
fn parse_bracketed(source: &Source, pos: usize) -> (result: ParseResult<Expression>)
    requires
        source.wf(),
    ensures
        parsed_as(result, spec_parse_bracketed(source@, pos as int), pos),
        within(result, pos, source@.len()),
    decreases remaining(source@, pos as int), 4nat,
{
    if pos >= source.len() || !source.has_char(pos, '(') {
        return Err(ParseError { position: pos });
    }
    let Ok((rest, inner)) = parse_expression(source, pos + 1) else {
        return Err(ParseError { position: pos });
    };
    if rest < source.len() && source.has_char(rest, ')') {
        Ok((rest + 1, inner))
    } else {
        Err(ParseError { position: pos })
    }
}

/// A call.
pub fn parse_function_call_expression(source: &Source, pos: usize) -> (result: ParseResult<
    Expression,
>)
    requires
        source.wf(),
    ensures
        parsed_as(result, spec_parse_function_call(source@, pos as int), pos),
        within(result, pos, source@.len()),
    decreases remaining(source@, pos as int), 4nat,
{
    let (name_rest, name) = parse_identifier(source, pos)?;
    if name_rest >= source.len() || !source.has_char(name_rest, '(') {
        return Err(ParseError { position: pos });
    }
    let (rest, arguments) = parse_arguments(source, name_rest + 1);
    if rest < source.len() && source.has_char(rest, ')') {
        let value = Expression::FunctionCall(name.value, arguments);
        assert(value@->FunctionCall_1 =~= expression_views(arguments@));
        Ok((rest + 1, Token { position: pos, value }))
    } else {
        Err(ParseError { position: pos })
    }
}

/// The arguments of a call, and the position after them.
fn parse_arguments(source: &Source, pos: usize) -> (result: (usize, Vec<Expression>))
    requires
        source.wf(),
        pos <= source@.len(),
    ensures
        (result.0 as int, expression_views(result.1@)) == spec_parse_arguments(
            source@,
            pos as int,
        ),
        pos <= result.0 <= source@.len(),
    decreases remaining(source@, pos as int), 30nat,
{
    let mut arguments: Vec<Expression> = Vec::new();
    assert(expression_views(arguments@) =~= seq![]);
    let Ok((first_rest, first)) = parse_expression(source, pos) else {
        return (pos, arguments);
    };
    if first_rest <= pos {
        return (pos, arguments);
    }
    let ghost first_view = first.value@;
    arguments.push(first.value);
    assert(expression_views(arguments@) =~= seq![first_view]);
    let mut rest = first_rest;
    loop
        invariant
            source.wf(),
            pos < first_rest <= rest <= source@.len(),
            spec_parse_expression(source@, pos as int) is Some,
            spec_parse_expression(source@, pos as int)->0.rest == first_rest,
            spec_parse_expression(source@, pos as int)->0.value == first_view,
            spec_parse_more_arguments(source@, rest as int, expression_views(arguments@))
                == spec_parse_more_arguments(source@, first_rest as int, seq![first_view]),
        decreases source@.len() - rest,
    {
        let Ok((after_comma, _)) = comma_token(source, rest) else {
            return (rest, arguments);
        };
        if after_comma <= rest {
            return (rest, arguments);
        }
        let Ok((next_rest, next)) = parse_expression(source, after_comma) else {
            return (rest, arguments);
        };
        if next_rest <= rest {
            return (rest, arguments);
        }
        let ghost before = expression_views(arguments@);
        let ghost next_view = next.value@;
        arguments.push(next.value);
        assert(expression_views(arguments@) =~= before.push(next_view));
        rest = next_rest;
    }
}

} // verus!
