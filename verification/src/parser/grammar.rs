//! The grammar, as functions from a text and a position in it to what is
//! read there.
//!
//! Each function reads one construct at a position of the text.  Where the
//! construct is there, the result tells the position after it, the position
//! at which it began, and the syntax tree that it stands for.  The choices
//! of the grammar are ordered: the first alternative that reads something is
//! taken.

use vstd::prelude::*;
use super::syntax::{
    ExpressionView, FunctionDefinitionView, LiteralView, LoopView, StatementView,
};
use super::syntax::{
    ArithmeticOperator, BinaryOperator, ComparisonOperator, LoopPredicatePosition,
};

verus! {

/// What was read: the position after it, the position at which it began,
/// and its meaning.
pub struct Parsed<V> {
    pub rest: int,
    pub position: int,
    pub value: V,
}

/// Whether `rest` is a position of the text after the position `pos`.
pub open spec fn advances(s: Seq<char>, pos: int, rest: int) -> bool {
    0 <= pos < rest <= s.len()
}

/// The number of characters from `pos` on.
pub open spec fn remaining(s: Seq<char>, pos: int) -> nat {
    if 0 <= pos <= s.len() {
        (s.len() - pos) as nat
    } else {
        0
    }
}

pub open spec fn is_space(c: char) -> bool {
    c == ' ' || c == '\t'
}

pub open spec fn is_multispace(c: char) -> bool {
    c == ' ' || c == '\t' || c == '\r' || c == '\n'
}

pub open spec fn is_digit(c: char) -> bool {
    '0' <= c <= '9'
}

pub open spec fn is_identifier_char(c: char) -> bool {
    'a' <= c <= 'z' || 'A' <= c <= 'Z' || '0' <= c <= '9' || c == '_'
}

/// The characters that a string literal can hold as they are.
pub open spec fn is_string_char(c: char) -> bool {
    'a' <= c <= 'z' || 'A' <= c <= 'Z' || '0' <= c <= '9' || c == ' ' || c == '!' || c == '@'
        || c == '#' || c == '$' || c == '%' || c == '^' || c == '&' || c == '*' || c == '('
        || c == ')'
}

/// The characters that can follow a backslash in a string literal.
pub open spec fn is_escapable(c: char) -> bool {
    c == '"' || c == 'n' || c == '\\'
}

/// The position of the first character from `pos` on that is not blank.
pub open spec fn spec_skip_space(s: Seq<char>, pos: int) -> int
    decreases s.len() - pos,
{
    if 0 <= pos < s.len() && is_space(s[pos]) {
        spec_skip_space(s, pos + 1)
    } else {
        pos
    }
}

/// The position of the first character from `pos` on that is neither blank
/// nor a line break.
pub open spec fn spec_skip_multispace(s: Seq<char>, pos: int) -> int
    decreases s.len() - pos,
{
    if 0 <= pos < s.len() && is_multispace(s[pos]) {
        spec_skip_multispace(s, pos + 1)
    } else {
        pos
    }
}

/// The position after `tag`, where the text continues with it at `pos`.
pub open spec fn spec_tag(s: Seq<char>, pos: int, tag: Seq<char>) -> Option<int> {
    if 0 <= pos && pos + tag.len() <= s.len() && s.subrange(pos, pos + tag.len()) == tag {
        Some(pos + tag.len())
    } else {
        None
    }
}

/// A token: white space, then the token's text.
pub open spec fn spec_token(s: Seq<char>, pos: int, tag: Seq<char>) -> Option<Parsed<Seq<char>>> {
    let start = spec_skip_multispace(s, pos);
    match spec_tag(s, start, tag) {
        Some(rest) => Some(Parsed { rest, position: start, value: tag }),
        None => None,
    }
}

/// Whether the character at `pos` is `c`.
pub open spec fn spec_char(s: Seq<char>, pos: int, c: char) -> bool {
    0 <= pos < s.len() && s[pos] == c
}

/// The position after the characters of an identifier from `pos` on.
pub open spec fn spec_identifier_end(s: Seq<char>, pos: int) -> int
    decreases s.len() - pos,
{
    if 0 <= pos < s.len() && is_identifier_char(s[pos]) {
        spec_identifier_end(s, pos + 1)
    } else {
        pos
    }
}

/// The words that are no identifiers.
pub open spec fn is_reserved(name: Seq<char>) -> bool {
    name == "def"@ || name == "let"@ || name == "if"@ || name == "else"@
}

/// An identifier: white space, then letters, digits and underscores that
/// spell no reserved word.
pub open spec fn spec_parse_identifier(s: Seq<char>, pos: int) -> Option<Parsed<Seq<char>>> {
    let start = spec_skip_multispace(s, pos);
    let end = spec_identifier_end(s, start);
    if start < end <= s.len() && !is_reserved(s.subrange(start, end)) {
        Some(Parsed { rest: end, position: start, value: s.subrange(start, end) })
    } else {
        None
    }
}

/// The position after the content of a string literal that goes on at
/// `pos`: characters that stand for themselves, and a backslash with the
/// character after it.  `None` where a backslash is followed by nothing or
/// by a character that cannot be escaped.
pub open spec fn spec_escaped_end(s: Seq<char>, pos: int) -> Option<int>
    decreases s.len() - pos,
{
    if 0 <= pos < s.len() {
        if is_string_char(s[pos]) {
            spec_escaped_end(s, pos + 1)
        } else if s[pos] == '\\' {
            if pos + 1 < s.len() && is_escapable(s[pos + 1]) {
                spec_escaped_end(s, pos + 2)
            } else {
                None
            }
        } else {
            Some(pos)
        }
    } else {
        Some(pos)
    }
}

/// A string literal: blanks, then the content between double quotes.  The
/// content is not empty, and its escapes are kept as they are written.
pub open spec fn spec_literal_string(s: Seq<char>, pos: int) -> Option<Parsed<LiteralView>> {
    let start = spec_skip_space(s, pos);
    if spec_char(s, start, '"') {
        match spec_escaped_end(s, start + 1) {
            Some(end) => if start + 1 < end && spec_char(s, end, '"') {
                Some(
                    Parsed {
                        rest: end + 1,
                        position: start,
                        value: LiteralView::String(s.subrange(start + 1, end)),
                    },
                )
            } else {
                None
            },
            None => None,
        }
    } else {
        None
    }
}

/// The position after the digits from `pos` on.
pub open spec fn spec_digits_end(s: Seq<char>, pos: int) -> int
    decreases s.len() - pos,
{
    if 0 <= pos < s.len() && is_digit(s[pos]) {
        spec_digits_end(s, pos + 1)
    } else {
        pos
    }
}

/// The number that the digits from `start` up to `end` spell in base ten.
pub open spec fn spec_digits_value(s: Seq<char>, start: int, end: int) -> int
    decreases end - start,
{
    if 0 <= start < end <= s.len() {
        spec_digits_value(s, start, end - 1) * 10 + (s[end - 1] as int - '0' as int)
    } else {
        0
    }
}

/// An integer literal: white space, then digits that spell a number which a
/// signed 64-bit integer can hold.
pub open spec fn spec_literal_int(s: Seq<char>, pos: int) -> Option<Parsed<LiteralView>> {
    let start = spec_skip_multispace(s, pos);
    let end = spec_digits_end(s, start);
    if start < end <= s.len() && spec_digits_value(s, start, end) <= i64::MAX {
        Some(
            Parsed {
                rest: end,
                position: start,
                value: LiteralView::Integer(spec_digits_value(s, start, end) as i64),
            },
        )
    } else {
        None
    }
}

/// A literal: a string or an integer.
pub open spec fn spec_parse_literal(s: Seq<char>, pos: int) -> Option<Parsed<LiteralView>> {
    match spec_literal_string(s, pos) {
        Some(parsed) => Some(parsed),
        None => spec_literal_int(s, pos),
    }
}

/// A comparison operator.  `<=` and `>=` are tried before `<` and `>`.
pub open spec fn spec_comparison_operator(s: Seq<char>, pos: int) -> Option<(int, BinaryOperator)> {
    if spec_token(s, pos, "=="@) is Some {
        Some(
            (
                spec_token(s, pos, "=="@)->0.rest,
                BinaryOperator::ComparisonOperator(ComparisonOperator::Equal),
            ),
        )
    } else if spec_token(s, pos, "!="@) is Some {
        Some(
            (
                spec_token(s, pos, "!="@)->0.rest,
                BinaryOperator::ComparisonOperator(ComparisonOperator::NotEqual),
            ),
        )
    } else if spec_token(s, pos, "<="@) is Some {
        Some(
            (
                spec_token(s, pos, "<="@)->0.rest,
                BinaryOperator::ComparisonOperator(ComparisonOperator::LessOrEqual),
            ),
        )
    } else if spec_token(s, pos, "<"@) is Some {
        Some(
            (
                spec_token(s, pos, "<"@)->0.rest,
                BinaryOperator::ComparisonOperator(ComparisonOperator::LessThan),
            ),
        )
    } else if spec_token(s, pos, ">="@) is Some {
        Some(
            (
                spec_token(s, pos, ">="@)->0.rest,
                BinaryOperator::ComparisonOperator(ComparisonOperator::GreaterOrEqual),
            ),
        )
    } else if spec_token(s, pos, ">"@) is Some {
        Some(
            (
                spec_token(s, pos, ">"@)->0.rest,
                BinaryOperator::ComparisonOperator(ComparisonOperator::GreaterThan),
            ),
        )
    } else {
        None
    }
}

/// An operator of a level of precedence: comparisons bind weakest, then
/// `+` and `-`, then `*` and `/`.
pub open spec fn spec_operator(s: Seq<char>, pos: int, precedence: int) -> Option<
    (int, BinaryOperator),
> {
    if precedence == 1 {
        spec_comparison_operator(s, pos)
    } else if precedence == 2 {
        if spec_token(s, pos, "+"@) is Some {
            Some(
                (
                    spec_token(s, pos, "+"@)->0.rest,
                    BinaryOperator::ArithmeticOperator(ArithmeticOperator::Add),
                ),
            )
        } else if spec_token(s, pos, "-"@) is Some {
            Some(
                (
                    spec_token(s, pos, "-"@)->0.rest,
                    BinaryOperator::ArithmeticOperator(ArithmeticOperator::Subtract),
                ),
            )
        } else {
            None
        }
    } else {
        if spec_token(s, pos, "*"@) is Some {
            Some(
                (
                    spec_token(s, pos, "*"@)->0.rest,
                    BinaryOperator::ArithmeticOperator(ArithmeticOperator::Multiply),
                ),
            )
        } else if spec_token(s, pos, "/"@) is Some {
            Some(
                (
                    spec_token(s, pos, "/"@)->0.rest,
                    BinaryOperator::ArithmeticOperator(ArithmeticOperator::Divide),
                ),
            )
        } else {
            None
        }
    }
}

/// An expression: operands joined by operators.  Operators of one level of
/// precedence group to the left.
pub open spec fn spec_parse_expression(s: Seq<char>, pos: int) -> Option<Parsed<ExpressionView>>
    decreases remaining(s, pos), 20nat,
{
    spec_parse_binary_operators(s, pos, 1)
}

/// The operands of a level of precedence and the operators between them.
pub open spec fn spec_parse_binary_operators(s: Seq<char>, pos: int, precedence: int) -> Option<
    Parsed<ExpressionView>,
>
    decreases remaining(s, pos), (18 - 2 * precedence) as nat,
{
    if 1 <= precedence <= 3 {
        match spec_parse_operand(s, pos, precedence) {
            None => None,
            Some(lhs) => if advances(s, pos, lhs.rest) {
                let (rest, value) = spec_fold_operators(s, lhs.rest, precedence, lhs.value);
                Some(Parsed { rest, position: lhs.position, value })
            } else {
                None
            },
        }
    } else {
        None
    }
}

/// An operand of a level of precedence: an expression of the next level,
/// or a factor at the last.
pub open spec fn spec_parse_operand(s: Seq<char>, pos: int, precedence: int) -> Option<
    Parsed<ExpressionView>,
>
    decreases remaining(s, pos), (17 - 2 * precedence) as nat,
{
    if 1 <= precedence < 3 {
        spec_parse_binary_operators(s, pos, precedence + 1)
    } else if precedence == 3 {
        spec_parse_factor(s, pos)
    } else {
        None
    }
}

/// The operators of a level of precedence from `pos` on with their right
/// operands, applied to the expression read so far.
pub open spec fn spec_fold_operators(
    s: Seq<char>,
    pos: int,
    precedence: int,
    left: ExpressionView,
) -> (int, ExpressionView)
    decreases remaining(s, pos), 0nat,
{
    match spec_operator(s, pos, precedence) {
        None => (pos, left),
        Some((after_operator, operator)) => if advances(s, pos, after_operator) && 1 <= precedence <= 3 {
            match spec_parse_operand(s, after_operator, precedence) {
                None => (pos, left),
                Some(rhs) => if advances(s, pos, rhs.rest) {
                    spec_fold_operators(
                        s,
                        rhs.rest,
                        precedence,
                        ExpressionView::BinaryExpression(
                            Box::new(left),
                            operator,
                            Box::new(rhs.value),
                        ),
                    )
                } else {
                    (pos, left)
                },
            }
        } else {
            (pos, left)
        },
    }
}

/// A factor: an expression in parentheses, a call, a literal or an
/// identifier.  No white space may stand before an opening parenthesis or
/// before a closing one.
pub open spec fn spec_parse_factor(s: Seq<char>, pos: int) -> Option<Parsed<ExpressionView>>
    decreases remaining(s, pos), 5nat,
{
    let bracketed = spec_parse_bracketed(s, pos);
    let call = spec_parse_function_call(s, pos);
    if bracketed is Some {
        bracketed
    } else if call is Some {
        call
    } else {
        match spec_parse_literal(s, pos) {
            Some(literal) => Some(
                Parsed {
                    rest: literal.rest,
                    position: literal.position,
                    value: ExpressionView::Literal(literal.value),
                },
            ),
            None => match spec_parse_identifier(s, pos) {
                Some(identifier) => Some(
                    Parsed {
                        rest: identifier.rest,
                        position: identifier.position,
                        value: ExpressionView::Identifier(identifier.value),
                    },
                ),
                None => None,
            },
        }
    }
}

/// An expression in parentheses.
pub open spec fn spec_parse_bracketed(s: Seq<char>, pos: int) -> Option<Parsed<ExpressionView>>
    decreases remaining(s, pos), 4nat,
{
    if spec_char(s, pos, '(') {
        match spec_parse_expression(s, pos + 1) {
            Some(inner) => if spec_char(s, inner.rest, ')') {
                Some(Parsed { rest: inner.rest + 1, position: inner.position, value: inner.value })
            } else {
                None
            },
            None => None,
        }
    } else {
        None
    }
}

/// A call: the name of the function, then the arguments in parentheses,
/// separated by commas.
pub open spec fn spec_parse_function_call(s: Seq<char>, pos: int) -> Option<
    Parsed<ExpressionView>,
>
    decreases remaining(s, pos), 4nat,
{
    match spec_parse_identifier(s, pos) {
        None => None,
        Some(name) => if 0 <= pos <= name.rest && spec_char(s, name.rest, '(') {
            let (rest, arguments) = spec_parse_arguments(s, name.rest + 1);
            if spec_char(s, rest, ')') {
                Some(
                    Parsed {
                        rest: rest + 1,
                        position: pos,
                        value: ExpressionView::FunctionCall(name.value, arguments),
                    },
                )
            } else {
                None
            }
        } else {
            None
        },
    }
}

/// The arguments of a call, and the position after them.
pub open spec fn spec_parse_arguments(s: Seq<char>, pos: int) -> (int, Seq<ExpressionView>)
    decreases remaining(s, pos), 30nat,
{
    match spec_parse_expression(s, pos) {
        None => (pos, seq![]),
        Some(first) => if advances(s, pos, first.rest) {
            spec_parse_more_arguments(s, first.rest, seq![first.value])
        } else {
            (pos, seq![])
        },
    }
}

/// The arguments after the first: each follows a comma.
pub open spec fn spec_parse_more_arguments(
    s: Seq<char>,
    pos: int,
    arguments: Seq<ExpressionView>,
) -> (int, Seq<ExpressionView>)
    decreases remaining(s, pos), 0nat,
{
    match spec_token(s, pos, ","@) {
        None => (pos, arguments),
        Some(comma) => if advances(s, pos, comma.rest) {
            match spec_parse_expression(s, comma.rest) {
                None => (pos, arguments),
                Some(next) => if advances(s, pos, next.rest) {
                    spec_parse_more_arguments(s, next.rest, arguments.push(next.value))
                } else {
                    (pos, arguments)
                },
            }
        } else {
            (pos, arguments)
        },
    }
}

/// The parameters after the first: each follows a comma.
pub open spec fn spec_parse_more_parameters(
    s: Seq<char>,
    pos: int,
    parameters: Seq<Seq<char>>,
) -> (int, Seq<Seq<char>>)
    decreases s.len() - pos,
{
    match spec_token(s, pos, ","@) {
        None => (pos, parameters),
        Some(comma) => match spec_parse_identifier(s, comma.rest) {
            None => (pos, parameters),
            Some(next) => if advances(s, pos, next.rest) {
                spec_parse_more_parameters(s, next.rest, parameters.push(next.value))
            } else {
                (pos, parameters)
            },
        },
    }
}

/// The parameters of a function definition: blanks, then the names in
/// parentheses, separated by commas.
pub open spec fn spec_parse_arguments_list(s: Seq<char>, pos: int) -> Option<
    Parsed<Seq<Seq<char>>>,
> {
    let start = spec_skip_space(s, pos);
    if spec_char(s, start, '(') {
        let (rest, parameters) = match spec_parse_identifier(s, start + 1) {
            None => (start + 1, seq![]),
            Some(first) => spec_parse_more_parameters(s, first.rest, seq![first.value]),
        };
        if spec_char(s, rest, ')') {
            Some(Parsed { rest: rest + 1, position: start, value: parameters })
        } else {
            None
        }
    } else {
        None
    }
}

/// A block in braces.
pub open spec fn spec_parse_block(s: Seq<char>, pos: int) -> Option<Parsed<Seq<StatementView>>>
    decreases remaining(s, pos), 0nat,
{
    match spec_token(s, pos, "{"@) {
        None => None,
        Some(open) => if advances(s, pos, open.rest) {
            match spec_parse_block_inner(s, open.rest) {
                None => None,
                Some(inner) => match spec_token(s, inner.rest, "}"@) {
                    None => None,
                    Some(close) => Some(
                        Parsed { rest: close.rest, position: inner.position, value: inner.value },
                    ),
                },
            }
        } else {
            None
        },
    }
}

/// One statement or more.
pub open spec fn spec_parse_block_inner(s: Seq<char>, pos: int) -> Option<
    Parsed<Seq<StatementView>>,
>
    decreases remaining(s, pos), 9nat,
{
    match spec_parse_statement(s, pos) {
        None => None,
        Some(first) => if advances(s, pos, first.rest) {
            let (rest, statements) = spec_parse_more_statements(s, first.rest, seq![first.value]);
            Some(Parsed { rest, position: pos, value: statements })
        } else {
            None
        },
    }
}

/// The statements after the first, as long as there are any.
pub open spec fn spec_parse_more_statements(
    s: Seq<char>,
    pos: int,
    statements: Seq<StatementView>,
) -> (int, Seq<StatementView>)
    decreases remaining(s, pos), 10nat,
{
    match spec_parse_statement(s, pos) {
        None => (pos, statements),
        Some(next) => if advances(s, pos, next.rest) {
            spec_parse_more_statements(s, next.rest, statements.push(next.value))
        } else {
            (pos, statements)
        },
    }
}

/// A function definition: `def`, the name, the parameters and the body.
pub open spec fn spec_parse_function_definition(s: Seq<char>, pos: int) -> Option<
    Parsed<FunctionDefinitionView>,
>
    decreases remaining(s, pos), 3nat,
{
    match spec_token(s, pos, "def"@) {
        None => None,
        Some(keyword) => match spec_parse_identifier(s, keyword.rest) {
            None => None,
            Some(name) => match spec_parse_arguments_list(s, name.rest) {
                None => None,
                Some(parameters) => if advances(s, pos, parameters.rest) {
                    match spec_parse_block(s, parameters.rest) {
                        None => None,
                        Some(body) => Some(
                            Parsed {
                                rest: body.rest,
                                position: keyword.position,
                                value: FunctionDefinitionView {
                                    name: name.value,
                                    args: parameters.value,
                                    body: body.value,
                                },
                            },
                        ),
                    }
                } else {
                    None
                },
            },
        },
    }
}

/// A variable declaration: `let`, the name, `=` and the value.
pub open spec fn spec_parse_variable_declaration(s: Seq<char>, pos: int) -> Option<
    Parsed<(Seq<char>, ExpressionView)>,
> {
    match spec_token(s, pos, "let"@) {
        None => None,
        Some(keyword) => match spec_parse_identifier(s, keyword.rest) {
            None => None,
            Some(name) => match spec_token(s, name.rest, "="@) {
                None => None,
                Some(equals) => match spec_parse_expression(s, equals.rest) {
                    None => None,
                    Some(value) => Some(
                        Parsed {
                            rest: value.rest,
                            position: keyword.position,
                            value: (name.value, value.value),
                        },
                    ),
                },
            },
        },
    }
}

/// A predicate and the block that it guards.
pub open spec fn spec_parse_guarded_block(s: Seq<char>, pos: int, start: int) -> Option<
    Parsed<(ExpressionView, Seq<StatementView>)>,
>
    decreases remaining(s, start), 1nat,
{
    match spec_parse_expression(s, pos) {
        None => None,
        Some(predicate) => if advances(s, start, predicate.rest) && advances(s, start, pos) {
            match spec_parse_block(s, predicate.rest) {
                None => None,
                Some(block) => Some(
                    Parsed {
                        rest: block.rest,
                        position: pos,
                        value: (predicate.value, block.value),
                    },
                ),
            }
        } else {
            None
        },
    }
}

/// The `else if` branches from `pos` on, as long as there are any.
pub open spec fn spec_parse_else_if_branches(
    s: Seq<char>,
    pos: int,
    branches: Seq<(Option<ExpressionView>, Seq<StatementView>)>,
) -> (int, Seq<(Option<ExpressionView>, Seq<StatementView>)>)
    decreases remaining(s, pos), 2nat,
{
    match spec_token(s, pos, "else"@) {
        None => (pos, branches),
        Some(else_keyword) => match spec_token(s, else_keyword.rest, "if"@) {
            None => (pos, branches),
            Some(if_keyword) => match spec_parse_guarded_block(s, if_keyword.rest, pos) {
                None => (pos, branches),
                Some(branch) => if advances(s, pos, branch.rest) {
                    spec_parse_else_if_branches(
                        s,
                        branch.rest,
                        branches.push((Some(branch.value.0), branch.value.1)),
                    )
                } else {
                    (pos, branches)
                },
            },
        },
    }
}

/// The `else` branch, if there is one at `pos`.
pub open spec fn spec_parse_else_branch(s: Seq<char>, pos: int, start: int) -> Option<
    Parsed<Seq<StatementView>>,
>
    decreases remaining(s, start), 1nat,
{
    match spec_token(s, pos, "else"@) {
        None => None,
        Some(keyword) => if advances(s, start, keyword.rest) {
            spec_parse_block(s, keyword.rest)
        } else {
            None
        },
    }
}

/// A condition: `if` with its predicate and block, then the `else if`
/// branches and the `else` branch.
pub open spec fn spec_parse_condition(s: Seq<char>, pos: int) -> Option<
    Parsed<Seq<(Option<ExpressionView>, Seq<StatementView>)>>,
>
    decreases remaining(s, pos), 3nat,
{
    match spec_token(s, pos, "if"@) {
        None => None,
        Some(keyword) => match spec_parse_guarded_block(s, keyword.rest, pos) {
            None => None,
            Some(first) => if advances(s, pos, first.rest) {
                let (rest, branches) = spec_parse_else_if_branches(
                    s,
                    first.rest,
                    seq![(Some(first.value.0), first.value.1)],
                );
                if advances(s, pos, rest) {
                    match spec_parse_else_branch(s, rest, pos) {
                        Some(last) => Some(
                            Parsed {
                                rest: last.rest,
                                position: keyword.position,
                                value: branches.push((None, last.value)),
                            },
                        ),
                        None => Some(
                            Parsed { rest, position: keyword.position, value: branches },
                        ),
                    }
                } else {
                    None
                }
            } else {
                None
            },
        },
    }
}

/// A loop: `while`, the predicate and the body.
pub open spec fn spec_parse_while_loop(s: Seq<char>, pos: int) -> Option<Parsed<LoopView>>
    decreases remaining(s, pos), 3nat,
{
    match spec_token(s, pos, "while"@) {
        None => None,
        Some(keyword) => match spec_parse_guarded_block(s, keyword.rest, pos) {
            None => None,
            Some(guarded) => Some(
                Parsed {
                    rest: guarded.rest,
                    position: keyword.position,
                    value: LoopView {
                        predicate_position: LoopPredicatePosition::BeforeBlock,
                        predicate: guarded.value.0,
                        block: guarded.value.1,
                    },
                },
            ),
        },
    }
}

/// `return` and the value.
pub open spec fn spec_parse_return(s: Seq<char>, pos: int) -> Option<Parsed<ExpressionView>> {
    match spec_token(s, pos, "return"@) {
        None => None,
        Some(keyword) => match spec_parse_expression(s, keyword.rest) {
            None => None,
            Some(value) => Some(
                Parsed { rest: value.rest, position: keyword.position, value: value.value },
            ),
        },
    }
}

/// An assignment: the name, `=` and the value.
pub open spec fn spec_parse_assignment(s: Seq<char>, pos: int) -> Option<
    Parsed<(Seq<char>, ExpressionView)>,
> {
    match spec_parse_identifier(s, pos) {
        None => None,
        Some(name) => match spec_token(s, name.rest, "="@) {
            None => None,
            Some(equals) => match spec_parse_expression(s, equals.rest) {
                None => None,
                Some(value) => Some(
                    Parsed {
                        rest: value.rest,
                        position: name.position,
                        value: (name.value, value.value),
                    },
                ),
            },
        },
    }
}

/// A statement.  The alternatives are tried in this order: function
/// definition, variable declaration, condition, loop, `return`, assignment,
/// expression.
pub open spec fn spec_parse_statement(s: Seq<char>, pos: int) -> Option<Parsed<StatementView>>
    decreases remaining(s, pos), 4nat,
{
    let definition = spec_parse_function_definition(s, pos);
    let declaration = spec_parse_variable_declaration(s, pos);
    let condition = spec_parse_condition(s, pos);
    let while_loop = spec_parse_while_loop(s, pos);
    let returned = spec_parse_return(s, pos);
    let assignment = spec_parse_assignment(s, pos);
    let expression = spec_parse_expression(s, pos);
    if definition is Some {
        Some(
            Parsed {
                rest: definition->0.rest,
                position: definition->0.position,
                value: StatementView::FunctionDefinition(definition->0.value),
            },
        )
    } else if declaration is Some {
        Some(
            Parsed {
                rest: declaration->0.rest,
                position: declaration->0.position,
                value: StatementView::VariableDeclaration(
                    declaration->0.value.0,
                    declaration->0.value.1,
                ),
            },
        )
    } else if condition is Some {
        Some(
            Parsed {
                rest: condition->0.rest,
                position: condition->0.position,
                value: StatementView::Condition(condition->0.value),
            },
        )
    } else if while_loop is Some {
        Some(
            Parsed {
                rest: while_loop->0.rest,
                position: while_loop->0.position,
                value: StatementView::Loop(while_loop->0.value),
            },
        )
    } else if returned is Some {
        Some(
            Parsed {
                rest: returned->0.rest,
                position: returned->0.position,
                value: StatementView::Return(returned->0.value),
            },
        )
    } else if assignment is Some {
        Some(
            Parsed {
                rest: assignment->0.rest,
                position: assignment->0.position,
                value: StatementView::Assignment(assignment->0.value.0, assignment->0.value.1),
            },
        )
    } else if expression is Some {
        Some(
            Parsed {
                rest: expression->0.rest,
                position: expression->0.position,
                value: StatementView::Expression(expression->0.value),
            },
        )
    } else {
        None
    }
}

/// An input: one statement or more.
pub open spec fn spec_parse(s: Seq<char>) -> Option<Parsed<Seq<StatementView>>> {
    spec_parse_block_inner(s, 0)
}

} // verus!
