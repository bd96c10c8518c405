use nom::branch::alt;
use nom::bytes::complete::{escaped, tag};
use nom::character::complete::{char, digit1, multispace0, one_of, space0};
use nom::combinator::{fail, map_res, opt};
use nom::error::ErrorKind;
use nom::multi::{fold_many0, many0, many1, separated_list0};
use nom::sequence::{delimited, preceded, terminated, tuple};
use nom::{AsChar, IResult, InputTakeAtPosition};
use nom_locate::{position, LocatedSpan};
use risp::parser::{
    parse_expression, parse_function_definition, parse_identifier, parse_literal,
    parse_statement, ArithmeticOperator, Assignment, BinaryOperator, Block, ComparisonOperator,
    Condition, Expression, FunctionDefinition, Identifier, Literal, Loop, LoopPredicatePosition,
    ParseResult, Source, Statement, Token, VariableDeclaration,
};

// The grammar once more, written with parser combinators.  The parsers of
// the library have to read what these read.

type Span<'a> = LocatedSpan<&'a str>;
type Read<'a, T> = IResult<Span<'a>, (usize, T), (Span<'a>, ErrorKind)>;

fn offset(input: Span) -> IResult<Span, usize, (Span, ErrorKind)> {
    let (input, place) = position(input)?;
    Ok((input, place.location_offset()))
}

fn token<'a>(text: &'static str) -> impl FnMut(Span<'a>) -> Read<'a, String> {
    move |input| {
        let (input, _) = multispace0(input)?;
        let (input, place) = offset(input)?;
        let (input, value) = tag(text)(input)?;
        Ok((input, (place, value.fragment().to_string())))
    }
}

fn bracketed<'a, T>(
    inner: impl FnMut(Span<'a>) -> IResult<Span<'a>, T, (Span<'a>, ErrorKind)>,
) -> impl FnMut(Span<'a>) -> IResult<Span<'a>, T, (Span<'a>, ErrorKind)> {
    preceded(char('('), terminated(inner, char(')')))
}

fn identifier_name(input: Span) -> IResult<Span, Span, (Span, ErrorKind)> {
    input.split_at_position1_complete(
        |item| {
            let item = item.as_char();
            !item.is_alphanum() && item != '_'
        },
        ErrorKind::AlphaNumeric,
    )
}

fn identifier(input: Span) -> Read<Identifier> {
    let (input, _) = multispace0(input)?;
    let (before, place) = offset(input)?;
    let (input, value) = identifier_name(before)?;
    let (input, _) = match *value.fragment() {
        "def" | "let" | "if" | "else" => fail(before)?,
        _ => (input, ()),
    };
    Ok((input, (place, Identifier(value.fragment().to_string()))))
}

fn literal_string(input: Span) -> Read<Literal> {
    let (input, _) = space0(input)?;
    let (input, place) = offset(input)?;
    let (input, chars) = delimited(
        char('"'),
        escaped(
            one_of("ABCDEFGHIJKLMNOPQRSTUVWXYZabcdefghijklmnopqrstuvwxyz01234567890 !@#$%^&*()"),
            '\\',
            one_of("\"n\\"),
        ),
        char('"'),
    )(input)?;
    Ok((input, (place, Literal::String(chars.fragment().to_string()))))
}

fn literal_int(input: Span) -> Read<Literal> {
    let (input, _) = multispace0(input)?;
    let (input, _) = multispace0(input)?;
    let (input, place) = offset(input)?;
    let (input, value) = map_res(digit1, |digits: Span| digits.fragment().parse::<i64>())(input)?;
    Ok((input, (place, Literal::Integer(value))))
}

fn literal(input: Span) -> Read<Literal> {
    alt((literal_string, literal_int))(input)
}

fn operator(symbol: &str) -> BinaryOperator {
    match symbol {
        "+" => BinaryOperator::ArithmeticOperator(ArithmeticOperator::Add),
        "-" => BinaryOperator::ArithmeticOperator(ArithmeticOperator::Subtract),
        "*" => BinaryOperator::ArithmeticOperator(ArithmeticOperator::Multiply),
        "/" => BinaryOperator::ArithmeticOperator(ArithmeticOperator::Divide),
        "==" => BinaryOperator::ComparisonOperator(ComparisonOperator::Equal),
        "!=" => BinaryOperator::ComparisonOperator(ComparisonOperator::NotEqual),
        "<" => BinaryOperator::ComparisonOperator(ComparisonOperator::LessThan),
        "<=" => BinaryOperator::ComparisonOperator(ComparisonOperator::LessOrEqual),
        ">" => BinaryOperator::ComparisonOperator(ComparisonOperator::GreaterThan),
        ">=" => BinaryOperator::ComparisonOperator(ComparisonOperator::GreaterOrEqual),
        other => unreachable!("operator {}", other),
    }
}

fn binary_operators(input: Span, precedence: usize) -> Read<Expression> {
    let operators = |input| match precedence {
        1 => alt((token("=="), token("!="), token("<="), token("<"), token(">="), token(">")))(
            input,
        ),
        2 => alt((token("+"), token("-")))(input),
        _ => alt((token("*"), token("/")))(input),
    };
    let operand = |input| match precedence {
        1..=2 => binary_operators(input, precedence + 1),
        _ => factor(input),
    };
    let (input, first) = operand(input)?;
    let place = first.0;
    let mut first = Some(first.1);
    let (input, value) = fold_many0(
        tuple((operators, operand)),
        move || first.take().expect("the fold starts once"),
        |left, (symbol, right)| {
            Expression::BinaryExpression(Box::new(left), operator(&symbol.1), Box::new(right.1))
        },
    )(input)?;
    Ok((input, (place, value)))
}

fn expression(input: Span) -> Read<Expression> {
    alt((|input| binary_operators(input, 1), factor))(input)
}

fn function_call(input: Span) -> Read<Expression> {
    let (input, place) = offset(input)?;
    let (input, name) = identifier(input)?;
    let (input, arguments) = bracketed(separated_list0(token(","), expression))(input)?;
    let arguments = arguments.into_iter().map(|argument| argument.1).collect();
    Ok((input, (place, Expression::FunctionCall(name.1, arguments))))
}

fn factor(input: Span) -> Read<Expression> {
    alt((
        bracketed(expression),
        function_call,
        |input| literal(input).map(|(rest, (place, value))| (rest, (place, Expression::Literal(value)))),
        |input| {
            identifier(input)
                .map(|(rest, (place, value))| (rest, (place, Expression::Identifier(value))))
        },
    ))(input)
}

fn block_inner(input: Span) -> Read<Block> {
    let (input, place) = offset(input)?;
    let (input, statements) = many1(statement)(input)?;
    Ok((input, (place, Block(statements.into_iter().map(|statement| statement.1).collect()))))
}

fn block(input: Span) -> Read<Block> {
    delimited(token("{"), block_inner, token("}"))(input)
}

fn function_definition(input: Span) -> Read<FunctionDefinition> {
    let (input, keyword) = token("def")(input)?;
    let (input, name) = identifier(input)?;
    let (input, _) = space0(input)?;
    let (input, args) = bracketed(separated_list0(token(","), identifier))(input)?;
    let (input, body) = block(input)?;
    let args = args.into_iter().map(|argument| argument.1).collect();
    Ok((input, (keyword.0, FunctionDefinition { name: name.1, args, body: body.1 })))
}

fn variable_declaration(input: Span) -> Read<VariableDeclaration> {
    let (input, keyword) = token("let")(input)?;
    let (input, name) = identifier(input)?;
    let (input, _) = token("=")(input)?;
    let (input, value) = expression(input)?;
    Ok((input, (keyword.0, VariableDeclaration { name: name.1, value: value.1 })))
}

fn else_if_branch(input: Span) -> Read<(Option<Expression>, Block)> {
    let (input, keyword) = token("else")(input)?;
    let (input, _) = token("if")(input)?;
    let (input, predicate) = expression(input)?;
    let (input, body) = block(input)?;
    Ok((input, (keyword.0, (Some(predicate.1), body.1))))
}

fn else_branch(input: Span) -> Read<(Option<Expression>, Block)> {
    let (input, keyword) = token("else")(input)?;
    let (input, body) = block(input)?;
    Ok((input, (keyword.0, (None, body.1))))
}

fn condition(input: Span) -> Read<Condition> {
    let mut branches = Vec::new();
    let (input, keyword) = token("if")(input)?;
    let (input, predicate) = expression(input)?;
    let (input, body) = block(input)?;
    branches.push((Some(predicate.1), body.1));
    let (input, more) = many0(else_if_branch)(input)?;
    for branch in more {
        branches.push(branch.1);
    }
    let (input, last) = opt(else_branch)(input)?;
    if let Some(last) = last {
        branches.push(last.1);
    }
    Ok((input, (keyword.0, Condition { branches })))
}

fn while_loop(input: Span) -> Read<Loop> {
    let (input, keyword) = token("while")(input)?;
    let (input, predicate) = expression(input)?;
    let (input, body) = block(input)?;
    Ok((
        input,
        (
            keyword.0,
            Loop {
                predicate_position: LoopPredicatePosition::BeforeBlock,
                predicate: predicate.1,
                block: body.1,
            },
        ),
    ))
}

fn return_statement(input: Span) -> Read<Expression> {
    let (input, keyword) = token("return")(input)?;
    let (input, value) = expression(input)?;
    Ok((input, (keyword.0, value.1)))
}

fn assignment(input: Span) -> Read<Assignment> {
    let (input, lhs) = identifier(input)?;
    let (input, _) = token("=")(input)?;
    let (input, rhs) = expression(input)?;
    Ok((input, (lhs.0, Assignment { lhs: lhs.1, rhs: rhs.1 })))
}

fn with<'a, T, U>(
    mut parser: impl FnMut(Span<'a>) -> Read<'a, T>,
    wrap: impl Fn(T) -> U,
) -> impl FnMut(Span<'a>) -> Read<'a, U> {
    move |input| parser(input).map(|(rest, (place, value))| (rest, (place, wrap(value))))
}

fn statement(input: Span) -> Read<Statement> {
    alt((
        with(function_definition, Statement::FunctionDefinition),
        with(variable_declaration, Statement::VariableDeclaration),
        with(condition, Statement::Condition),
        with(while_loop, Statement::Loop),
        with(return_statement, Statement::Return),
        with(assignment, Statement::Assignment),
        with(expression, Statement::Expression),
    ))(input)
}

fn agree<'a, T: std::fmt::Debug + PartialEq>(
    source: &'a str,
    combinators: impl Fn(Span<'a>) -> Read<'a, T>,
    parser: impl Fn(&Source, usize) -> ParseResult<T>,
) {
    let expected = match combinators(Span::new(source)) {
        Ok((rest, (place, value))) => Some((rest.location_offset(), Token { position: place, value })),
        Err(_) => None,
    };
    let actual = parser(&Source::new(source), 0).ok();
    assert_eq!(actual, expected, "{:?}", source);
}

const SOURCES: &[&str] = &[
    "",
    " ",
    "\n\t x",
    "x",
    "x1_y",
    "_",
    "9lives",
    "def",
    "define",
    "let",
    "lettuce = 1",
    "if",
    "iffy",
    "else",
    "return",
    "return 1",
    "returned",
    "while",
    "while x { 1 }",
    "while x < 10 { x = x + 1 }",
    "whilex{1}",
    "0",
    "007",
    "  1234",
    "9223372036854775807",
    "9223372036854775808",
    "99999999999999999999999",
    "-1",
    "1-1",
    "1 - -1",
    "\"foo\"",
    "  \"foo\"  ",
    "\n\"foo\"",
    "\"\"",
    "\"a\\nb\"",
    "\"a\\\"b\"",
    "\"a\\\\\"",
    "\"a\\x\"",
    "\"a\\",
    "\"unterminated",
    "\"with-dash\"",
    "\"tab\tinside\"",
    "\"(1 + 2) * 3 !@#$%^&*\"rest",
    "1 + 2",
    "1+2",
    "1 +2 ",
    "2 + 3 + 4",
    "2 * 3 / 4",
    "2 + 3*4",
    "1*2 + 3*4",
    "1 + 2 - 3 * 4 / 5 == 7 != 8 < 9 <= 10 > 11 >= 12",
    "1 < = 2",
    "1 <= 2",
    "1 =< 2",
    "1 == 2 == 3",
    "a = = 1",
    "a == 1",
    "a = 1",
    "a=1",
    "a = b = c",
    "5 = 3",
    "1 +",
    "1 + *",
    "+ 1",
    "(1)",
    "((1))",
    "(1 + 2)",
    "( 1)",
    "(1 )",
    "(1",
    "1)",
    "1+(2*3)",
    "1 + (2*3)",
    "(2*3)+(3*4)",
    "(2*3) + (3*4)",
    "f()",
    "f( )",
    "f(1)",
    "f(1,2)",
    "f(1, 2 , 3)",
    "f(1 )",
    "f (1)",
    "f(1,)",
    "f(,1)",
    "f(g(h(1)), \"s\")",
    "f(1)(2)",
    "if(1)",
    "let(1)",
    "x * x\n",
    "let x = 55 + 42",
    "let result = x * x",
    "let x 1",
    "let = 1",
    "let if = 1",
    "let x = ",
    "letx=1",
    "def add_one(x) { 1 + x }",
    "def add_one(x) {\n            1 + x \n        }",
    "def square (x) {\n  let result = x * x\n  result\n}",
    "def f() { 1 }",
    "def f( ) { 1 }",
    "def f(a,b) { a }",
    "def f(a , b) { a }",
    "def f(a, b ) { a }",
    "def f\t(a) { a }",
    "def f\n(a) { a }",
    "def f(a) { }",
    "def f(a) { a",
    "def f(a) a }",
    "def (a) { a }",
    "def f(1) { a }",
    "def f(a) { def g(b) { b } g(a) }",
    "deff(a){a}",
    "if x { 1 }",
    "if x { 1 } else { 2 }",
    "if x { 1 } else if y { 2 }",
    "if x { 1 } else if y { 2 } else { 3 }",
    "if x { 1 } else if y { 2 } else if z { 3 } else { 4 } else { 5 }",
    "if x { 1 } else",
    "if x { 1 } else if",
    "if x { 1 } else if y",
    "if x { 1 } else 2",
    "if x == 1 { return 1 } else { return 0 }",
    "if { 1 }",
    "if x 1",
    "if x {}",
    "ifx{1}",
    "if (x) { 1 }",
    "if(x){1}",
    "{ 1 }",
    "1 2 3",
    "1 } 2",
    "a b c = d",
    "é",
    "x é",
    "\"é\"",
    "1 + 2 é",
    "x\u{a0}y",
];

#[test]
fn identifiers_agree_with_the_combinators() {
    for source in SOURCES {
        agree(source, identifier, parse_identifier);
    }
}

#[test]
fn literals_agree_with_the_combinators() {
    for source in SOURCES {
        agree(source, literal, parse_literal);
    }
}

#[test]
fn expressions_agree_with_the_combinators() {
    for source in SOURCES {
        agree(source, expression, parse_expression);
    }
}

#[test]
fn function_definitions_agree_with_the_combinators() {
    for source in SOURCES {
        agree(source, function_definition, parse_function_definition);
    }
}

#[test]
fn statements_agree_with_the_combinators() {
    for source in SOURCES {
        agree(source, statement, parse_statement);
    }
}

#[test]
fn inputs_agree_with_the_combinators() {
    for source in SOURCES {
        agree(source, block_inner, |input, start| risp::parser::parse_block_inner(input, start));
        agree(source, block, |input, start| risp::parser::parse_block(input, start));
    }
}
