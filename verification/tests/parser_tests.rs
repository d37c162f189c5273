use nova::ast::{
    BooleanLiteral, Expression, ExpressionStatement, Identifier, InfixExpression, IntegerLiteral,
    LetStatement, Node, PrefixExpression, Program, ReturnStatement, Statement,
};
use nova::lexer::Lexer;
use nova::parser::{parse, Parser};
use nova::token::TokenType;

fn parse_ok(source: &str) -> Program {
    let (program, errors) = parse(source.to_string()).expect("every literal fits");
    assert!(errors.is_empty(), "unexpected errors: {:?}", errors);
    program
}

fn parse_with_errors(source: &str) -> (Program, Vec<String>) {
    parse(source.to_string()).expect("every literal fits")
}

fn printed(source: &str) -> String {
    parse_ok(source).string()
}

fn integer(value: i64) -> Expression {
    Expression::IntegerLiteral(IntegerLiteral {
        token: TokenType::Int(value),
        value,
    })
}

fn named(text: &str) -> Identifier {
    Identifier {
        token: TokenType::Ident(text.to_string()),
        value: text.to_string(),
    }
}

fn infix(left: Expression, token: TokenType, right: Expression) -> Expression {
    let operator = token.to_string();
    Expression::Infix(InfixExpression {
        token,
        left: Box::new(left),
        operator,
        right: Box::new(right),
    })
}

#[test]
fn product_binds_tighter_than_sum() {
    assert_eq!(printed("1 + 2 * 3"), "(1 + (2 * 3))");
    let program = parse_ok("1 + 2 * 3");
    assert_eq!(
        program.statements,
        vec![Statement::Expression(ExpressionStatement {
            token: TokenType::Int(1),
            expression: infix(
                integer(1),
                TokenType::Plus,
                infix(integer(2), TokenType::Asterisk, integer(3))
            ),
        })]
    );
}

#[test]
fn operators_of_one_level_group_to_the_left() {
    assert_eq!(printed("1 - 2 - 3"), "((1 - 2) - 3)");
    assert_eq!(printed("8 / 4 / 2"), "((8 / 4) / 2)");
    assert_eq!(printed("1 + 2 - 3 + 4"), "(((1 + 2) - 3) + 4)");
    assert_eq!(printed("a * b / c"), "((a * b) / c)");
    assert_eq!(printed("a == b != c"), "((a == b) != c)");
    assert_eq!(printed("a < b > c"), "((a < b) > c)");
}

#[test]
fn every_level_of_the_precedence_table() {
    assert_eq!(
        printed("a == b < c + d * e"),
        "(a == (b < (c + (d * e))))"
    );
    assert_eq!(
        printed("a * b + c < d == e"),
        "((((a * b) + c) < d) == e)"
    );
    assert_eq!(
        printed("3 + 4 * 5 == 3 * 1 + 4 * 5"),
        "((3 + (4 * 5)) == ((3 * 1) + (4 * 5)))"
    );
    assert_eq!(printed("5 > 4 == 3 < 4"), "((5 > 4) == (3 < 4))");
    assert_eq!(printed("a + b / c - d"), "((a + (b / c)) - d)");
}

#[test]
fn prefix_operators_bind_tighter_than_binary_ones() {
    assert_eq!(printed("-a * b"), "((-a) * b)");
    assert_eq!(printed("!-a"), "(!(-a))");
    assert_eq!(printed("-1 + 2"), "((-1) + 2)");
    assert_eq!(printed("!true == false"), "((!true) == false)");
    assert_eq!(printed("a + -b"), "(a + (-b))");
}

#[test]
fn calls_bind_tightest() {
    assert_eq!(printed("a + add(b * c) + d"), "((a + add((b * c))) + d)");
    assert_eq!(printed("-f(x)"), "(-f(x))");
    assert_eq!(
        printed("add(a, b, 1, 2 * 3, 4 + 5, add(6, 7 * 8))"),
        "add(a, b, 1, (2 * 3), (4 + 5), add(6, (7 * 8)))"
    );
    assert_eq!(printed("f()"), "f()");
    assert_eq!(printed("f(1)(2)"), "f(1)(2)");
}

#[test]
fn parentheses_group_and_leave_no_node() {
    assert_eq!(printed("(1 + 2) * 3"), "((1 + 2) * 3)");
    assert_eq!(printed("1 + (2 + 3) + 4"), "((1 + (2 + 3)) + 4)");
    assert_eq!(printed("-(5 + 5)"), "(-(5 + 5))");
    assert_eq!(printed("((7))"), "7");
    assert_eq!(parse_ok("(7)").statements, parse_ok("7").statements.iter().map(|s| match s {
        Statement::Expression(e) => Statement::Expression(ExpressionStatement {
            token: TokenType::LParen,
            expression: e.expression.clone(),
        }),
        other => other.clone(),
    }).collect::<Vec<Statement>>());
}

#[test]
fn let_statement() {
    let program = parse_ok("let x = 5;");
    assert_eq!(
        program.statements,
        vec![Statement::Let(LetStatement {
            token: TokenType::Let,
            name: named("x"),
            value: integer(5),
        })]
    );
    assert_eq!(program.string(), "let x = 5;");
    assert_eq!(program.token_literal(), "let");
    assert_eq!(printed("let y = a + b"), "let y = (a + b);");
}

#[test]
fn return_statement() {
    let program = parse_ok("return 10;");
    assert_eq!(
        program.statements,
        vec![Statement::Return(ReturnStatement {
            token: TokenType::Return,
            return_value: integer(10),
        })]
    );
    assert_eq!(program.string(), "return 10;");
    assert_eq!(program.token_literal(), "return");
}

#[test]
fn the_semicolon_is_optional() {
    assert_eq!(parse_ok("let x = 5").statements, parse_ok("let x = 5;").statements);
    assert_eq!(parse_ok("return x").statements, parse_ok("return x;").statements);
    assert_eq!(parse_ok("x + 1").statements, parse_ok("x + 1;").statements);
    assert_eq!(parse_ok("1; 2; 3").statements.len(), 3);
    assert_eq!(parse_ok("1 2 3").statements.len(), 3);
}

#[test]
fn literals_and_names() {
    assert_eq!(
        parse_ok("foobar").statements,
        vec![Statement::Expression(ExpressionStatement {
            token: TokenType::Ident("foobar".to_string()),
            expression: Expression::Identifier(named("foobar")),
        })]
    );
    assert_eq!(
        parse_ok("true").statements,
        vec![Statement::Expression(ExpressionStatement {
            token: TokenType::True,
            expression: Expression::Boolean(BooleanLiteral {
                token: TokenType::True,
                value: true,
            }),
        })]
    );
    assert_eq!(printed("false"), "false");
    assert_eq!(printed("5"), "5");
}

#[test]
fn prefix_expression_nodes() {
    assert_eq!(
        parse_ok("!5").statements,
        vec![Statement::Expression(ExpressionStatement {
            token: TokenType::Bang,
            expression: Expression::Prefix(PrefixExpression {
                token: TokenType::Bang,
                operator: "!".to_string(),
                right: Box::new(integer(5)),
            }),
        })]
    );
    assert_eq!(printed("-15"), "(-15)");
}

#[test]
fn if_expression() {
    assert_eq!(printed("if (x < y) { x }"), "if (x < y) { x }");
    assert_eq!(
        printed("if (x < y) { x } else { y }"),
        "if (x < y) { x } else { y }"
    );
    assert_eq!(
        printed("if (a) { let b = 1; b } else { return 2; }"),
        "if a { let b = 1;b } else { return 2; }"
    );
    assert_eq!(printed("if (a) { }"), "if a {  }");
    let program = parse_ok("if (x) { 1 } else { 2 }");
    match &program.statements[0] {
        Statement::Expression(statement) => match &statement.expression {
            Expression::If(conditional) => {
                assert_eq!(conditional.token, TokenType::If);
                assert_eq!(conditional.consequence.token, TokenType::LBrace);
                assert_eq!(conditional.consequence.statements.len(), 1);
                assert_eq!(conditional.consequence.token_literal(), "{");
                assert_eq!(conditional.consequence.string(), "1");
                let alternative = conditional.alternative.as_ref().expect("an else block");
                assert_eq!(alternative.statements.len(), 1);
                assert_eq!(alternative.string(), "2");
            }
            other => panic!("not a conditional: {:?}", other),
        },
        other => panic!("not an expression statement: {:?}", other),
    }
}

#[test]
fn function_literal() {
    assert_eq!(printed("fn(x, y) { x + y }"), "fn(x, y) (x + y)");
    assert_eq!(printed("fn() { 1 }"), "fn() 1");
    assert_eq!(printed("fn(x) { }"), "fn(x) ");
    let program = parse_ok("fn(a, b, c) { a }");
    match &program.statements[0] {
        Statement::Expression(statement) => match &statement.expression {
            Expression::Function(function) => {
                assert_eq!(function.token, TokenType::Function);
                assert_eq!(function.parameters, vec![named("a"), named("b"), named("c")]);
                assert_eq!(function.body.statements.len(), 1);
            }
            other => panic!("not a function: {:?}", other),
        },
        other => panic!("not an expression statement: {:?}", other),
    }
}

#[test]
fn parameters_that_are_no_names_are_left_out() {
    assert_eq!(printed("fn(x, 5, y) { x }"), "fn(x, y) x");
    assert_eq!(printed("fn(5) { 1 }"), "fn() 1");
}

#[test]
fn call_expression_nodes() {
    let program = parse_ok("add(1, 2 * 3)");
    match &program.statements[0] {
        Statement::Expression(statement) => match &statement.expression {
            Expression::Call(call) => {
                assert_eq!(call.token, TokenType::LParen);
                assert_eq!(*call.function, Expression::Identifier(named("add")));
                assert_eq!(
                    call.arguments,
                    vec![integer(1), infix(integer(2), TokenType::Asterisk, integer(3))]
                );
            }
            other => panic!("not a call: {:?}", other),
        },
        other => panic!("not an expression statement: {:?}", other),
    }
    assert_eq!(printed("fn(x) { x }(5)"), "fn(x) x(5)");
}

#[test]
fn let_without_a_name_is_an_error_and_no_statement() {
    let (program, errors) = parse_with_errors("let = 5;");
    assert!(!errors.is_empty());
    assert_eq!(program.statements.len(), 0);
    assert_eq!(errors, vec!["Expected Ident, got Assign".to_string()]);
}

#[test]
fn let_without_an_equals_sign_is_an_error() {
    let (program, errors) = parse_with_errors("let x 5;");
    assert_eq!(errors, vec!["Expected Assign, got Int(5)".to_string()]);
    assert_eq!(program.string(), "");
    let (_, errors) = parse_with_errors("let x y");
    assert_eq!(errors, vec!["Expected Assign, got Ident(\"y\")".to_string()]);
}

#[test]
fn a_token_that_starts_no_expression_is_an_error() {
    let (program, errors) = parse_with_errors(")");
    assert_eq!(errors, vec!["No prefix parse function for RParen".to_string()]);
    assert!(program.statements.is_empty());
    let (program, errors) = parse_with_errors("@");
    assert_eq!(errors, vec!["No prefix parse function for Illegal".to_string()]);
    assert!(program.statements.is_empty());
    let (_, errors) = parse_with_errors("1 + ");
    assert_eq!(errors, vec!["No prefix parse function for EOF".to_string()]);
}

#[test]
fn parsing_goes_on_after_a_failed_statement() {
    let (program, errors) = parse_with_errors("let = 1; let y = 2; y");
    assert_eq!(errors, vec!["Expected Ident, got Assign".to_string()]);
    assert_eq!(program.string(), "let y = 2;y");
    assert_eq!(program.statements.len(), 2);
    let (program, errors) = parse_with_errors("let x 5; let y = 2;");
    assert_eq!(errors.len(), 1);
    assert_eq!(program.string(), "let y = 2;");
    let (program, errors) = parse_with_errors("1; ); 2; let; 3");
    assert_eq!(
        errors,
        vec![
            "No prefix parse function for RParen".to_string(),
            "Expected Ident, got Semicolon".to_string(),
        ]
    );
    assert_eq!(program.string(), "123");
}

#[test]
fn a_failed_statement_is_passed_over_up_to_its_semicolon() {
    let (program, errors) = parse_with_errors("let = 5 let y = 2");
    assert_eq!(errors.len(), 1);
    assert!(program.statements.is_empty());
    let (program, errors) = parse_with_errors("let x 5 + 6 * 7; x");
    assert_eq!(errors, vec!["Expected Assign, got Int(5)".to_string()]);
    assert_eq!(program.string(), "x");
}

#[test]
fn semicolons_between_braces_end_no_failed_statement() {
    let (program, errors) = parse_with_errors("let = fn(x) { a; b }; 7");
    assert_eq!(errors, vec!["Expected Ident, got Assign".to_string()]);
    assert_eq!(program.string(), "7");
    let (program, errors) = parse_with_errors("let = if (c) { 1; } else { { 2; }; 3 }; 8; 9");
    assert_eq!(errors.len(), 1);
    assert_eq!(program.string(), "89");
    let (program, errors) = parse_with_errors("let = } ; 4");
    assert_eq!(errors.len(), 1);
    assert_eq!(program.string(), "4");
}

#[test]
fn a_failed_statement_inside_a_block_leaves_the_block_standing() {
    let (program, errors) = parse_with_errors("if (c) { let = 1; 2 }");
    assert_eq!(
        errors,
        vec![
            "Expected Ident, got Assign".to_string(),
            "No prefix parse function for Assign".to_string(),
        ]
    );
    assert_eq!(program.string(), "if c { 12 }");
}

#[test]
fn a_semicolon_alone_is_no_statement() {
    let (program, errors) = parse_with_errors(";");
    assert_eq!(errors, vec!["No prefix parse function for Semicolon".to_string()]);
    assert!(program.statements.is_empty());
}

#[test]
fn if_needs_its_parentheses_and_braces() {
    let (program, errors) = parse_with_errors("if x { 1 }");
    assert_eq!(errors[0], "Expected LParen, got Ident(\"x\")");
    assert!(!program.statements.iter().any(|s| matches!(
        s,
        Statement::Expression(ExpressionStatement {
            expression: Expression::If(_),
            ..
        })
    )));
    let (_, errors) = parse_with_errors("if (x) 1");
    assert_eq!(errors[0], "Expected LBrace, got Int(1)");
    let (_, errors) = parse_with_errors("if (x { 1 }");
    assert_eq!(errors[0], "Expected RParen, got LBrace");
    let (_, errors) = parse_with_errors("if (x) { 1 } else 2");
    assert_eq!(errors[0], "Expected LBrace, got Int(2)");
}

#[test]
fn unclosed_lists_and_groups_are_errors() {
    let (_, errors) = parse_with_errors("(1 + 2");
    assert_eq!(errors, vec!["Expected RParen, got EOF".to_string()]);
    let (program, errors) = parse_with_errors("f(1, 2");
    assert_eq!(errors, vec!["Expected RParen, got EOF".to_string()]);
    assert_eq!(program.string(), "f()");
    let (_, errors) = parse_with_errors("fn(x, y { x }");
    assert_eq!(errors[0], "Expected RParen, got LBrace");
    let (_, errors) = parse_with_errors("fn x");
    assert_eq!(errors[0], "Expected LParen, got Ident(\"x\")");
}

#[test]
fn a_failed_operand_ends_the_expression_it_belongs_to() {
    let (program, errors) = parse_with_errors("-) + 1");
    assert_eq!(errors, vec!["No prefix parse function for RParen".to_string()]);
    assert!(program.statements.is_empty());
    let (program, errors) = parse_with_errors("if + 1");
    assert_eq!(errors, vec!["Expected LParen, got Plus".to_string()]);
    assert!(program.statements.is_empty());
    let (program, errors) = parse_with_errors("1 + ) + 2; 3");
    assert_eq!(errors, vec!["No prefix parse function for RParen".to_string()]);
    assert_eq!(program.string(), "3");
    let (program, errors) = parse_with_errors("(1 2) + 3; 4");
    assert_eq!(errors, vec!["Expected RParen, got Int(2)".to_string()]);
    assert_eq!(program.string(), "4");
}

#[test]
fn a_block_ends_at_the_end_of_the_input_too() {
    let (program, errors) = parse_with_errors("if (x) { 1");
    assert!(errors.is_empty());
    assert_eq!(program.string(), "if x { 1 }");
}

#[test]
fn the_empty_program() {
    let program = parse_ok("");
    assert!(program.statements.is_empty());
    assert_eq!(program.string(), "");
    assert_eq!(program.token_literal(), "");
    assert!(parse_ok("   \n ").statements.is_empty());
}

#[test]
fn a_source_with_a_literal_that_does_not_fit_is_not_parsed() {
    assert_eq!(parse("let x = 9223372036854775808;".to_string()), None);
    assert!(parse("let x = 9223372036854775807;".to_string()).is_some());
}

#[test]
fn parser_over_a_lexer() {
    let mut parser = Parser::new(Lexer::new("let x = 1; x + 2".to_string()));
    let program = parser.parse_program();
    assert!(parser.errors.is_empty());
    assert_eq!(program.string(), "let x = 1;(x + 2)");
    assert_eq!(program.statements.len(), 2);
    let again = parser.parse_program();
    assert!(again.statements.is_empty());

    let mut failing = Parser::new(Lexer::new("let = 5;".to_string()));
    assert!(failing.recorded_errors().is_empty());
    let program = failing.parse_program();
    assert!(failing.errors.len() >= 1);
    assert_eq!(program.statements.len(), 0);
    assert_eq!(failing.recorded_errors(), &failing.errors);
    assert_eq!(
        failing.recorded_errors(),
        &vec!["Expected Ident, got Assign".to_string()]
    );
}

#[test]
fn nodes_tell_their_token_and_their_text() {
    let program = parse_ok("let total = price * 2; return -total; total");
    assert_eq!(program.token_literal(), "let");
    let literals: Vec<String> = program.statements.iter().map(|s| s.token_literal()).collect();
    assert_eq!(literals, vec!["let", "return", "total"]);
    let texts: Vec<String> = program.statements.iter().map(|s| s.string()).collect();
    assert_eq!(
        texts,
        vec!["let total = (price * 2);", "return (-total);", "total"]
    );
    match &program.statements[0] {
        Statement::Let(statement) => {
            assert_eq!(statement.value.token_literal(), "*");
            assert_eq!(statement.value.string(), "(price * 2)");
        }
        other => panic!("not a let: {:?}", other),
    }
    assert_eq!(integer(-3).string(), "-3");
    assert_eq!(integer(7).token_literal(), "7");
    assert_eq!(Expression::Identifier(named("x")).token_literal(), "x");
}

#[test]
fn copies_of_a_tree_are_equal_to_it() {
    let program = parse_ok(
        "let f = fn(a, b) { if (a < b) { return a; } else { b } }; f(1, !2 + -3)(true)",
    );
    let copy = program.clone();
    assert_eq!(copy, program);
    assert_eq!(copy.string(), program.string());
    for statement in &program.statements {
        assert_eq!(&statement.clone(), statement);
    }
}
