use chip8_kit::error::CompileError;
use chip8_kit::ir::ast::{BinaryOperator, Condition, Expression, Program, Statement};
use chip8_kit::parser::lexer::{tokenize, Token, TokenKind};
use chip8_kit::parser::parse;
use chip8_kit::parser::parser::parse_tokens;
use chip8_kit::span::Span;

fn program(source: &str) -> Program {
    parse(source).unwrap()
}

fn syntax_error(source: &str) -> String {
    match parse(source) {
        Err(CompileError::SyntaxError { line, message }) => {
            assert_eq!(line, 1);
            message
        }
        other => panic!("{:?}", other),
    }
}

fn shape(expression: &Expression) -> String {
    match expression {
        Expression::Number(n, _) => format!("{}", n),
        Expression::Variable(name, _) => name.clone(),
        Expression::BinaryOp { left, op, right, .. } => {
            let sign = match op {
                BinaryOperator::Add => "+",
                BinaryOperator::Subtract => "-",
                _ => "?",
            };
            format!("({} {} {})", shape(left), sign, shape(right))
        }
    }
}

#[test]
fn empty_program() {
    assert!(program("").statements.is_empty());
    assert!(program("\n\n  \n# nothing\n").statements.is_empty());
}

#[test]
fn assignment_of_a_number() {
    let parsed = program("v0 = 10\n");
    assert_eq!(parsed.statements.len(), 1);
    match &parsed.statements[0] {
        Statement::Assign { target, value, span } => {
            assert_eq!(target, "v0");
            match value {
                Expression::Number(n, at) => {
                    assert_eq!(*n, 10);
                    assert_eq!(*at, Span { line: 1, column: 6, start: 5, end: 7 });
                }
                other => panic!("{:?}", other),
            }
            // The statement carries the span of the token behind it.
            assert_eq!(*span, Span { line: 1, column: 8, start: 7, end: 8 });
        }
        other => panic!("{:?}", other),
    }
}

#[test]
fn expressions_group_to_the_left() {
    let parsed = program("v0 = v1 + 2 - v3 + 4");
    match &parsed.statements[0] {
        Statement::Assign { value, .. } => assert_eq!(shape(value), "(((v1 + 2) - v3) + 4)"),
        other => panic!("{:?}", other),
    }
    let parsed = program("v0 = v1 - (2 + (v3))");
    match &parsed.statements[0] {
        Statement::Assign { value, .. } => assert_eq!(shape(value), "(v1 - (2 + v3))"),
        other => panic!("{:?}", other),
    }
}

#[test]
fn operation_carries_the_span_of_the_token_behind_it() {
    let parsed = program("v0 = v1 + 2\n");
    match &parsed.statements[0] {
        Statement::Assign { value: Expression::BinaryOp { span, .. }, .. } => {
            assert_eq!(*span, Span { line: 1, column: 12, start: 11, end: 12 });
        }
        other => panic!("{:?}", other),
    }
}

#[test]
fn clear_and_print_calls() {
    let parsed = program("clear()\nprint(v1, v2, 'A')\n");
    assert_eq!(parsed.statements.len(), 2);
    assert!(matches!(parsed.statements[0], Statement::ClearScreen));
    match &parsed.statements[1] {
        Statement::Print { x, y, character, span } => {
            assert_eq!(shape(x), "v1");
            assert_eq!(shape(y), "v2");
            assert_eq!(*character, 'A');
            assert_eq!(*span, Span { line: 2, column: 1, start: 8, end: 27 });
        }
        other => panic!("{:?}", other),
    }
}

#[test]
fn while_loop_with_each_comparison() {
    for (source, expected) in [
        ("while v0 == 5:\n  clear()\n", "=="),
        ("while v0 != v1:\n  clear()\n", "!="),
        ("while v0 > 5:\n  clear()\n", ">"),
        ("while 3 < v2 + 1:\n  clear()\n", "<"),
        ("while True:\n  clear()\n", "True"),
    ] {
        let parsed = program(source);
        assert_eq!(parsed.statements.len(), 1);
        match &parsed.statements[0] {
            Statement::While { condition, body, .. } => {
                let found = match condition {
                    Condition::True => "True",
                    Condition::Equal(_, _) => "==",
                    Condition::NotEqual(_, _) => "!=",
                    Condition::Greater(_, _) => ">",
                    Condition::Less(_, _) => "<",
                    Condition::KeyPressed(_) => "key",
                };
                assert_eq!(found, expected);
                assert_eq!(body.len(), 1);
                assert!(matches!(body[0], Statement::ClearScreen));
            }
            other => panic!("{:?}", other),
        }
    }
}

#[test]
fn while_loop_operands() {
    let parsed = program("while v3 + 1 != 7 - v2:\n  v3 = 0\n");
    match &parsed.statements[0] {
        Statement::While { condition: Condition::NotEqual(left, right), span, .. } => {
            assert_eq!(shape(left), "(v3 + 1)");
            assert_eq!(shape(right), "(7 - v2)");
            assert_eq!((span.line, span.column, span.start), (1, 1, 0));
            assert_eq!(span.end, 33);
        }
        other => panic!("{:?}", other),
    }
}

#[test]
fn for_loop_with_both_bounds() {
    let parsed = program("for v1 in range(2, v5):\n    clear()\n    v0 = v1\n");
    assert_eq!(parsed.statements.len(), 1);
    match &parsed.statements[0] {
        Statement::For { variable, start, end, body, span } => {
            assert_eq!(variable, "v1");
            assert_eq!(shape(start), "2");
            assert_eq!(shape(end), "v5");
            assert_eq!(body.len(), 2);
            assert!(matches!(body[0], Statement::ClearScreen));
            assert!(matches!(body[1], Statement::Assign { .. }));
            assert_eq!((span.line, span.column, span.start), (1, 1, 0));
        }
        other => panic!("{:?}", other),
    }
}

#[test]
fn for_loop_with_one_bound_starts_at_zero() {
    let parsed = program("for v1 in range(3):\n  clear()\n");
    match &parsed.statements[0] {
        Statement::For { start, end, .. } => {
            match start {
                Expression::Number(n, at) => {
                    assert_eq!(*n, 0);
                    // The implied start carries the span of the closing parenthesis.
                    assert_eq!(*at, Span { line: 1, column: 18, start: 17, end: 18 });
                }
                other => panic!("{:?}", other),
            }
            assert_eq!(shape(end), "3");
        }
        other => panic!("{:?}", other),
    }
}

#[test]
fn block_ends_before_a_loop_keyword_on_a_new_line() {
    let parsed = program("while True:\n  v0 = 1\n  v1 = 2\nwhile True:\n  v2 = 3\nfor v3 in range(1):\n  v4 = 4\n");
    assert_eq!(parsed.statements.len(), 3);
    match &parsed.statements[0] {
        Statement::While { body, .. } => assert_eq!(body.len(), 2),
        other => panic!("{:?}", other),
    }
    match &parsed.statements[1] {
        Statement::While { body, .. } => assert_eq!(body.len(), 1),
        other => panic!("{:?}", other),
    }
    match &parsed.statements[2] {
        Statement::For { body, .. } => assert_eq!(body.len(), 1),
        other => panic!("{:?}", other),
    }
}

#[test]
fn block_swallows_what_follows_on_later_lines() {
    // There is no indentation: statements behind a loop belong to its body.
    let parsed = program("while True:\n  v0 = 1\nv1 = 2\nclear()\n");
    assert_eq!(parsed.statements.len(), 1);
    match &parsed.statements[0] {
        Statement::While { body, .. } => assert_eq!(body.len(), 3),
        other => panic!("{:?}", other),
    }
}

#[test]
fn pass_ends_a_block_and_yields_no_statement() {
    let parsed = program("pass\nv0 = 1\n");
    assert_eq!(parsed.statements.len(), 1);
    let parsed = program("while True:\n  v0 = 1\n  pass\nv1 = 2\n");
    assert_eq!(parsed.statements.len(), 2);
    match &parsed.statements[0] {
        Statement::While { body, .. } => assert_eq!(body.len(), 1),
        other => panic!("{:?}", other),
    }
    assert!(matches!(parsed.statements[1], Statement::Assign { .. }));
}

#[test]
fn a_loop_on_the_same_line_nests() {
    let parsed = program("for v1 in range(2): for v2 in range(3): clear()\n");
    assert_eq!(parsed.statements.len(), 1);
    match &parsed.statements[0] {
        Statement::For { variable, body, .. } => {
            assert_eq!(variable, "v1");
            assert_eq!(body.len(), 1);
            match &body[0] {
                Statement::For { variable, body, .. } => {
                    assert_eq!(variable, "v2");
                    assert_eq!(body.len(), 1);
                }
                other => panic!("{:?}", other),
            }
        }
        other => panic!("{:?}", other),
    }
}

#[test]
fn tokens_that_start_no_statement_are_passed_over() {
    let parsed = program(") , : 5 'x' \"s\" + v0 = 1\n");
    assert_eq!(parsed.statements.len(), 1);
    assert!(matches!(parsed.statements[0], Statement::Assign { .. }));
}

#[test]
fn statement_that_is_neither_assignment_nor_call() {
    assert_eq!(syntax_error("v0 + 1"), "Unexpected token Plus at 1:4, expected '=' or '('");
    assert_eq!(syntax_error("v0"), "Unexpected token Eof at 1:3, expected '=' or '('");
    assert_eq!(
        syntax_error("v0 v1 = 2"),
        "Unexpected token Identifier(\"v1\") at 1:4, expected '=' or '('"
    );
}

#[test]
fn unknown_and_misplaced_functions() {
    assert_eq!(syntax_error("  foo()"), "Syntax error at 1:3: Unknown function: foo");
    assert_eq!(syntax_error("range(3)"), "Syntax error at 1:1: range() can only be used in for loops");
    assert_eq!(syntax_error("clear(1)"), "Unexpected token Number(1) at 1:7, expected RParen");
    assert_eq!(syntax_error("key_pressed(1)"), "Syntax error at 1:1: Unknown function: key_pressed");
}

#[test]
fn malformed_print_calls() {
    assert_eq!(syntax_error("print(v0 v1, 'A')"), "Unexpected token Identifier(\"v1\") at 1:10, expected Comma");
    assert_eq!(syntax_error("print(v0, v1)"), "Unexpected token RParen at 1:13, expected Comma");
    assert_eq!(
        syntax_error("print(v0, v1, \"A\")"),
        "Unexpected token StringLiteral(\"A\") at 1:15, expected character literal"
    );
    assert_eq!(syntax_error("print(v0, v1, 'A'"), "Unexpected token Eof at 1:18, expected RParen");
}

#[test]
fn malformed_expressions() {
    assert_eq!(syntax_error("v0 = "), "Unexpected token Eof at 1:6, expected number, variable, or '('");
    assert_eq!(syntax_error("v0 = 1 + *"), "Unexpected token Star at 1:10, expected number, variable, or '('");
    assert_eq!(syntax_error("v0 = (1 + 2"), "Unexpected token Eof at 1:12, expected RParen");
    assert_eq!(syntax_error("v0 = 'c'"), "Unexpected token CharLiteral('c') at 1:6, expected number, variable, or '('");
}

#[test]
fn malformed_loops() {
    assert_eq!(syntax_error("while :"), "Syntax error at 1:7: Expected condition");
    assert_eq!(
        syntax_error("while v0 = 5:"),
        "Unexpected token Assign at 1:10, expected comparison operator (==, !=, >, <)"
    );
    assert_eq!(syntax_error("while v0 == 5\n"), "Unexpected token Newline at 1:14, expected Colon");
    assert_eq!(syntax_error("while (v0) == 5:"), "Syntax error at 1:7: Expected condition");
    assert_eq!(syntax_error("for 3 in range(1):"), "Unexpected token Number(3) at 1:5, expected identifier");
    assert_eq!(syntax_error("for v0 range(1):"), "Unexpected token Identifier(\"range\") at 1:8, expected In");
    assert_eq!(
        syntax_error("for v0 in items(1):"),
        "Unexpected token Identifier(\"items\") at 1:11, expected Identifier(\"range\")"
    );
    assert_eq!(syntax_error("for v0 in range 1:"), "Unexpected token Number(1) at 1:17, expected LParen");
    assert_eq!(syntax_error("for v0 in range(1, 2, 3):"), "Unexpected token Comma at 1:21, expected RParen");
    assert_eq!(syntax_error("for v0 in range(1)"), "Unexpected token Eof at 1:19, expected Colon");
}

#[test]
fn error_inside_a_block_is_wrapped_once_per_level() {
    assert_eq!(
        syntax_error("while True:\n v0 +"),
        "Syntax error at 1:1: Syntax error at line 1: Unexpected token Plus at 2:5, expected '=' or '('"
    );
    assert_eq!(
        syntax_error("for v1 in range(2): for v2 in range(3): v0 +"),
        "Syntax error at 1:1: Syntax error at line 1: Syntax error at 1:1: Syntax error at line 1: \
         Unexpected token Plus at 1:44, expected '=' or '('"
    );
}

#[test]
fn lexical_errors_come_first() {
    match parse("v0 + \n $") {
        Err(CompileError::LexerError { message }) => {
            assert_eq!(message, "Unexpected character '$' at 2:2");
        }
        other => panic!("{:?}", other),
    }
}

#[test]
fn tokens_without_an_end_of_file_token() {
    let tokens = tokenize("v0 = 1").unwrap();
    let mut cut: Vec<Token> = tokens;
    cut.pop();
    let parsed = parse_tokens(cut).unwrap();
    assert_eq!(parsed.statements.len(), 1);
    assert!(parse_tokens(Vec::new()).unwrap().statements.is_empty());
    let lone = vec![Token {
        kind: TokenKind::Identifier("v0".to_string()),
        span: Span { line: 4, column: 2, start: 9, end: 11 },
    }];
    match parse_tokens(lone) {
        Err(CompileError::SyntaxError { message, .. }) => {
            assert_eq!(message, "Unexpected token Eof at 1:1, expected '=' or '('");
        }
        other => panic!("{:?}", other),
    }
    let open = vec![
        Token { kind: TokenKind::Identifier("v0".to_string()), span: Span::default() },
        Token { kind: TokenKind::Assign, span: Span::default() },
    ];
    match parse_tokens(open) {
        Err(CompileError::SyntaxError { message, .. }) => {
            assert_eq!(message, "Unexpected end of file at 1:1");
        }
        other => panic!("{:?}", other),
    }
}

#[test]
fn tokens_behind_the_end_of_file_token_are_not_read() {
    let mut tokens = tokenize("v0 = 1").unwrap();
    tokens.extend(tokenize("v1 = 2").unwrap());
    let parsed = parse_tokens(tokens).unwrap();
    assert_eq!(parsed.statements.len(), 1);
}

#[test]
fn default_span_is_the_start_of_the_text() {
    assert_eq!(Span::default(), Span { line: 1, column: 1, start: 0, end: 0 });
}

#[test]
fn expression_copies_stand_for_the_same_expression() {
    let parsed = program("v0 = (v1 + 2) - v3");
    match &parsed.statements[0] {
        Statement::Assign { value, .. } => {
            let copy = value.clone();
            assert_eq!(format!("{:?}", copy), format!("{:?}", value));
        }
        other => panic!("{:?}", other),
    }
}
