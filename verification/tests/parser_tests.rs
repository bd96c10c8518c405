use risp::parser::{
    parse, parse_binary_operator_expression, parse_expression, parse_function_definition,
    parse_identifier, parse_literal, parse_statement, parse_variable_declaration,
    ArithmeticOperator, Assignment, BinaryOperator, Block, ComparisonOperator, Condition,
    Expression, FunctionDefinition, Identifier, Literal, Loop, LoopPredicatePosition, ParseError,
    ParseResult, Source, Statement, Token, VariableDeclaration,
};

fn parse_test<T: std::fmt::Debug + PartialEq>(
    parser: impl Fn(&Source, usize) -> ParseResult<T>,
    input: &str,
    expected: (usize, Token<T>),
) {
    let source = Source::new(input);
    let actual = parser(&source, 0);

    match actual {
        Ok(actual) => {
            assert_eq!(actual, expected);
        }
        Err(error) => panic!("Parsing test failed: {:?}", error),
    }
}

fn integer(value: i64) -> Box<Expression> {
    Box::new(Expression::Literal(Literal::Integer(value)))
}

fn arithmetic(operator: ArithmeticOperator) -> BinaryOperator {
    BinaryOperator::ArithmeticOperator(operator)
}

fn comparison(operator: ComparisonOperator) -> BinaryOperator {
    BinaryOperator::ComparisonOperator(operator)
}

fn binary(lhs: Box<Expression>, operator: BinaryOperator, rhs: Box<Expression>) -> Box<Expression> {
    Box::new(Expression::BinaryExpression(lhs, operator, rhs))
}

fn name(text: &str) -> Box<Expression> {
    Box::new(Expression::Identifier(Identifier::new(text)))
}

#[test]
fn test_expressions_with_identifiers() {
    parse_test(
        parse_expression,
        "x * x\n",
        (
            5,
            Token {
                position: 0,
                value: Expression::BinaryExpression(
                    Box::new(Expression::Identifier(Identifier::new("x"))),
                    BinaryOperator::ArithmeticOperator(ArithmeticOperator::Multiply),
                    Box::new(Expression::Identifier(Identifier::new("x"))),
                ),
            },
        ),
    )
}

#[test]
fn test_addition() {
    parse_test(
        parse_binary_operator_expression,
        "2 + 3 + 4",
        (
            9,
            Token {
                position: 0,
                value: Expression::BinaryExpression(
                    Box::new(Expression::BinaryExpression(
                        Box::new(Expression::Literal(Literal::Integer(2))),
                        BinaryOperator::ArithmeticOperator(ArithmeticOperator::Add),
                        Box::new(Expression::Literal(Literal::Integer(3))),
                    )),
                    BinaryOperator::ArithmeticOperator(ArithmeticOperator::Add),
                    Box::new(Expression::Literal(Literal::Integer(4))),
                ),
            },
        ),
    )
}

#[test]
fn test_multiplication_division() {
    parse_test(
        parse_binary_operator_expression,
        "2 * 3 / 4",
        (
            9,
            Token {
                position: 0,
                value: Expression::BinaryExpression(
                    Box::new(Expression::BinaryExpression(
                        Box::new(Expression::Literal(Literal::Integer(2))),
                        BinaryOperator::ArithmeticOperator(ArithmeticOperator::Multiply),
                        Box::new(Expression::Literal(Literal::Integer(3))),
                    )),
                    BinaryOperator::ArithmeticOperator(ArithmeticOperator::Divide),
                    Box::new(Expression::Literal(Literal::Integer(4))),
                ),
            },
        ),
    )
}

#[test]
fn test_mixed_expression_1() {
    parse_test(
        parse_binary_operator_expression,
        "2 + 3*4",
        (
            7,
            Token {
                position: 0,
                value: Expression::BinaryExpression(
                    Box::new(Expression::Literal(Literal::Integer(2))),
                    BinaryOperator::ArithmeticOperator(ArithmeticOperator::Add),
                    Box::new(Expression::BinaryExpression(
                        Box::new(Expression::Literal(Literal::Integer(3))),
                        BinaryOperator::ArithmeticOperator(ArithmeticOperator::Multiply),
                        Box::new(Expression::Literal(Literal::Integer(4))),
                    )),
                ),
            },
        ),
    )
}

#[test]
fn test_mixed_expression_2() {
    parse_test(
        parse_binary_operator_expression,
        "1*2 + 3*4",
        (
            9,
            Token {
                position: 0,
                value: Expression::BinaryExpression(
                    Box::new(Expression::BinaryExpression(
                        Box::new(Expression::Literal(Literal::Integer(1))),
                        BinaryOperator::ArithmeticOperator(ArithmeticOperator::Multiply),
                        Box::new(Expression::Literal(Literal::Integer(2))),
                    )),
                    BinaryOperator::ArithmeticOperator(ArithmeticOperator::Add),
                    Box::new(Expression::BinaryExpression(
                        Box::new(Expression::Literal(Literal::Integer(3))),
                        BinaryOperator::ArithmeticOperator(ArithmeticOperator::Multiply),
                        Box::new(Expression::Literal(Literal::Integer(4))),
                    )),
                ),
            },
        ),
    )
}

#[test]
fn test_one_plus_x() {
    parse_test(
        parse_binary_operator_expression,
        "1 + x",
        (
            5,
            Token {
                position: 0,
                value: Expression::BinaryExpression(
                    Box::new(Expression::Literal(Literal::Integer(1))),
                    BinaryOperator::ArithmeticOperator(ArithmeticOperator::Add),
                    Box::new(Expression::Identifier(Identifier("x".to_string()))),
                ),
            },
        ),
    )
}

#[test]
fn test_rainbow_operators() {
    let sum = binary(integer(1), arithmetic(ArithmeticOperator::Add), integer(2));
    let product = binary(integer(3), arithmetic(ArithmeticOperator::Multiply), integer(4));
    let quotient = binary(product, arithmetic(ArithmeticOperator::Divide), integer(5));
    let difference = binary(sum, arithmetic(ArithmeticOperator::Subtract), quotient);
    let equal = binary(difference, comparison(ComparisonOperator::Equal), integer(7));
    let not_equal = binary(equal, comparison(ComparisonOperator::NotEqual), integer(8));
    let less = binary(not_equal, comparison(ComparisonOperator::LessThan), integer(9));
    let less_or_equal = binary(less, comparison(ComparisonOperator::LessOrEqual), integer(10));
    let greater = binary(less_or_equal, comparison(ComparisonOperator::GreaterThan), integer(11));
    let greater_or_equal =
        binary(greater, comparison(ComparisonOperator::GreaterOrEqual), integer(12));
    parse_test(
        parse_binary_operator_expression,
        "1 + 2 - 3 * 4 / 5 == 7 != 8 < 9 <= 10 > 11 >= 12",
        (48, Token { position: 0, value: *greater_or_equal }),
    )
}

#[test]
fn test_identifier() {
    let input = Source::new("foo");
    assert_eq!(
        parse_identifier(&input, 0),
        Ok((3, Token { position: 0, value: Identifier("foo".to_owned()) }))
    );

    let input = Source::new(" foo");
    assert_eq!(
        parse_identifier(&input, 0),
        Ok((4, Token { position: 1, value: Identifier("foo".to_owned()) }))
    );

    let input = Source::new("foo ");
    assert_eq!(
        parse_identifier(&input, 0),
        Ok((3, Token { position: 0, value: Identifier("foo".to_owned()) }))
    );

    let input = Source::new("foo_bar");
    assert_eq!(
        parse_identifier(&input, 0),
        Ok((7, Token { position: 0, value: Identifier("foo_bar".to_owned()) }))
    );
}

#[test]
fn test_literal() {
    let input = Source::new("  \"foo\"  ");
    assert_eq!(
        parse_literal(&input, 0),
        Ok((7, Token { position: 2, value: Literal::String("foo".to_owned()) }))
    );

    let input = Source::new("  1234");
    assert_eq!(
        parse_literal(&input, 0),
        Ok((6, Token { position: 2, value: Literal::Integer(1234) }))
    );

    let input = Source::new("\"foo\"blah");
    assert_eq!(
        parse_literal(&input, 0),
        Ok((5, Token { position: 0, value: Literal::String("foo".to_owned()) }))
    );
}

#[test]
fn test_function_definition_1() {
    parse_test(
        parse_function_definition,
        "def add_one(x) { 1 + x }",
        (
            24,
            Token {
                position: 0,
                value: FunctionDefinition {
                    name: Identifier("add_one".to_string()),
                    args: vec![Identifier("x".to_string())],
                    body: Block(vec![Statement::Expression(Expression::BinaryExpression(
                        Box::new(Expression::Literal(Literal::Integer(1))),
                        BinaryOperator::ArithmeticOperator(ArithmeticOperator::Add),
                        Box::new(Expression::Identifier(Identifier("x".to_string()))),
                    ))]),
                },
            },
        ),
    )
}

#[test]
fn test_function_definition_2() {
    parse_test(
        parse_function_definition,
        "def add_one(x) {
            1 + x 
        }",
        (
            45,
            Token {
                position: 0,
                value: FunctionDefinition {
                    name: Identifier("add_one".to_string()),
                    args: vec![Identifier("x".to_string())],
                    body: Block(vec![Statement::Expression(Expression::BinaryExpression(
                        Box::new(Expression::Literal(Literal::Integer(1))),
                        BinaryOperator::ArithmeticOperator(ArithmeticOperator::Add),
                        Box::new(Expression::Identifier(Identifier("x".to_string()))),
                    ))]),
                },
            },
        ),
    )
}

#[test]
fn test_function_definition_3() {
    parse_test(
        parse_function_definition,
        "def square (x) {\n  let result = x * x\n  result\n}",
        (
            48,
            Token {
                position: 0,
                value: FunctionDefinition {
                    name: Identifier("square".to_string()),
                    args: vec![Identifier("x".to_string())],
                    body: Block(vec![
                        Statement::VariableDeclaration(VariableDeclaration {
                            name: Identifier::new("result"),
                            value: Expression::BinaryExpression(
                                Box::new(Expression::Identifier(Identifier("x".to_string()))),
                                BinaryOperator::ArithmeticOperator(ArithmeticOperator::Multiply),
                                Box::new(Expression::Identifier(Identifier("x".to_string()))),
                            ),
                        }),
                        Statement::Expression(Expression::Identifier(Identifier::new("result"))),
                    ]),
                },
            },
        ),
    )
}

#[test]
fn test_parse_variable_declaration() {
    parse_test(
        parse_variable_declaration,
        "let x = 55 + 42",
        (
            15,
            Token {
                position: 0,
                value: VariableDeclaration {
                    name: Identifier::new("x"),
                    value: Expression::BinaryExpression(
                        Box::new(Expression::Literal(Literal::Integer(55))),
                        BinaryOperator::ArithmeticOperator(ArithmeticOperator::Add),
                        Box::new(Expression::Literal(Literal::Integer(42))),
                    ),
                },
            },
        ),
    );
}

#[test]
fn test_parse_variable_declaration_2() {
    parse_test(
        parse_variable_declaration,
        "let result = x * x",
        (
            18,
            Token {
                position: 0,
                value: VariableDeclaration {
                    name: Identifier::new("result"),
                    value: Expression::BinaryExpression(
                        Box::new(Expression::Identifier(Identifier::new("x"))),
                        BinaryOperator::ArithmeticOperator(ArithmeticOperator::Multiply),
                        Box::new(Expression::Identifier(Identifier::new("x"))),
                    ),
                },
            },
        ),
    );
}

#[test]
fn reserved_words_are_no_identifiers() {
    for word in ["def", "let", "if", "else"] {
        let input = Source::new(word);
        assert_eq!(parse_identifier(&input, 0), Err(ParseError { position: 0 }));
    }
    let input = Source::new("define");
    assert_eq!(
        parse_identifier(&input, 0),
        Ok((6, Token { position: 0, value: Identifier::new("define") }))
    );
}

#[test]
fn integer_literal_overflow_is_no_literal() {
    let input = Source::new("9223372036854775807");
    assert_eq!(
        parse_literal(&input, 0),
        Ok((19, Token { position: 0, value: Literal::Integer(i64::MAX) }))
    );
    let input = Source::new("9223372036854775808");
    assert_eq!(parse_literal(&input, 0), Err(ParseError { position: 0 }));
}

#[test]
fn string_literal_keeps_its_escapes() {
    let input = Source::new("\"a\\nb\" rest");
    assert_eq!(
        parse_literal(&input, 0),
        Ok((6, Token { position: 0, value: Literal::String("a\\nb".to_owned()) }))
    );
    let empty = Source::new("\"\"");
    assert_eq!(parse_literal(&empty, 0), Err(ParseError { position: 0 }));
    let bad_escape = Source::new("\"a\\x\"");
    assert_eq!(parse_literal(&bad_escape, 0), Err(ParseError { position: 0 }));
}

#[test]
fn white_space_before_a_parenthesis_ends_the_expression() {
    let input = Source::new("1 + (2*3)");
    assert_eq!(
        parse_expression(&input, 0),
        Ok((1, Token { position: 0, value: Expression::Literal(Literal::Integer(1)) }))
    );
    let input = Source::new("1+(2*3)");
    assert_eq!(
        parse_expression(&input, 0),
        Ok((
            7,
            Token {
                position: 0,
                value: *binary(
                    integer(1),
                    arithmetic(ArithmeticOperator::Add),
                    binary(integer(2), arithmetic(ArithmeticOperator::Multiply), integer(3)),
                ),
            }
        ))
    );
}

#[test]
fn function_call_with_arguments() {
    let input = Source::new("f(1, x, g())");
    let expected = Expression::FunctionCall(
        Identifier::new("f"),
        vec![
            Expression::Literal(Literal::Integer(1)),
            Expression::Identifier(Identifier::new("x")),
            Expression::FunctionCall(Identifier::new("g"), vec![]),
        ],
    );
    assert_eq!(parse_expression(&input, 0), Ok((12, Token { position: 0, value: expected })));
}

#[test]
fn condition_with_all_kinds_of_branches() {
    let input = Source::new("if x { 1 } else if y == 2 { 2 } else { 3 }");
    let expected = Statement::Condition(Condition {
        branches: vec![
            (
                Some(*name("x")),
                Block(vec![Statement::Expression(Expression::Literal(Literal::Integer(1)))]),
            ),
            (
                Some(*binary(name("y"), comparison(ComparisonOperator::Equal), integer(2))),
                Block(vec![Statement::Expression(Expression::Literal(Literal::Integer(2)))]),
            ),
            (None, Block(vec![Statement::Expression(Expression::Literal(Literal::Integer(3)))])),
        ],
    });
    assert_eq!(parse_statement(&input, 0), Ok((42, Token { position: 0, value: expected })));
}

#[test]
fn while_loop_return_and_assignment() {
    let input = Source::new("while x < 3 { x = x + 1 }");
    let expected = Statement::Loop(Loop {
        predicate_position: LoopPredicatePosition::BeforeBlock,
        predicate: *binary(name("x"), comparison(ComparisonOperator::LessThan), integer(3)),
        block: Block(vec![Statement::Assignment(Assignment {
            lhs: Identifier::new("x"),
            rhs: *binary(name("x"), arithmetic(ArithmeticOperator::Add), integer(1)),
        })]),
    });
    assert_eq!(parse_statement(&input, 0), Ok((25, Token { position: 0, value: expected })));

    let input = Source::new(" return 7");
    assert_eq!(
        parse_statement(&input, 0),
        Ok((
            9,
            Token {
                position: 1,
                value: Statement::Return(Expression::Literal(Literal::Integer(7)))
            }
        ))
    );
}

#[test]
fn parse_reads_statements_and_stops_at_what_it_cannot_read() {
    let parsed = parse("1 2 }").unwrap();
    assert_eq!(parsed.0, 3);
    assert_eq!(
        parsed.1.value,
        Block(vec![
            Statement::Expression(Expression::Literal(Literal::Integer(1))),
            Statement::Expression(Expression::Literal(Literal::Integer(2))),
        ])
    );
    assert_eq!(parse("}"), Err(ParseError { position: 0 }));
    assert_eq!(parse(""), Err(ParseError { position: 0 }));
}
