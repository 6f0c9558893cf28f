//! The meaning of the parser: what each of its steps makes of a sequence of
//! tokens, as functions from the tokens and a position to a piece of syntax
//! and the position behind it.
//!
//! The language has no indentation tokens. A block ends at the end of the
//! tokens, before `while`, `if` and `def`, before a line feed that is
//! followed by one of these or by `for`, and behind a token that yields no
//! statement.

use vstd::prelude::*;
use crate::error::{
    compile_error_text, from_parse_error, kind_debug, CompileErrorView, ParseErrorView,
};
use crate::ir::ast::{BinaryOperator, ConditionView, ExpressionView, StatementView};
use crate::parser::lexer::{TokenKindView, TokenView};
use crate::span::Span;

verus! {

/// A piece of syntax and the position behind it, or the error that the
/// tokens run into.
pub type Parsed<T> = Result<(T, int), ParseErrorView>;

/// The token at a position, if there is one.
pub open spec fn token_at(tokens: Seq<TokenView>, pos: int) -> Option<TokenView> {
    if 0 <= pos < tokens.len() {
        Some(tokens[pos])
    } else {
        None
    }
}

/// The kind of the token at a position, if there is one.
pub open spec fn kind_at(tokens: Seq<TokenView>, pos: int) -> Option<TokenKindView> {
    match token_at(tokens, pos) {
        Some(token) => Some(token.kind),
        None => None,
    }
}

/// The span of the token at a position; behind the last token, the start
/// of the text.
pub open spec fn span_at(tokens: Seq<TokenView>, pos: int) -> Span {
    match token_at(tokens, pos) {
        Some(token) => token.span,
        None => Span::origin(),
    }
}

/// The position behind the token at `pos`; behind the last token the
/// position stays.
pub open spec fn step(tokens: Seq<TokenView>, pos: int) -> int {
    if 0 <= pos < tokens.len() {
        pos + 1
    } else {
        pos
    }
}

/// Whether the tokens are used up: the position stands on the end-of-file
/// token or behind the last token.
pub open spec fn at_end(tokens: Seq<TokenView>, pos: int) -> bool {
    match kind_at(tokens, pos) {
        Some(kind) => kind is Eof,
        None => true,
    }
}

/// The span that starts where `from` starts and ends where the token at
/// `pos` ends.
pub open spec fn span_from(tokens: Seq<TokenView>, from: Span, pos: int) -> Span {
    Span { line: from.line, column: from.column, start: from.start, end: span_at(tokens, pos).end }
}

/// The error for a token that is not the one asked for.
pub open spec fn unexpected(expected: Seq<char>, found: TokenView) -> ParseErrorView {
    ParseErrorView::UnexpectedToken {
        expected,
        found: found.kind,
        line: found.span.line,
        column: found.span.column,
    }
}

/// The error for tokens that end too early, reported at the span of the
/// position where a token was asked for.
pub open spec fn unexpected_eof(tokens: Seq<TokenView>, pos: int) -> ParseErrorView {
    ParseErrorView::UnexpectedEof {
        line: span_at(tokens, pos).line,
        column: span_at(tokens, pos).column,
    }
}

/// The position behind any line feeds at `pos`.
pub open spec fn consume_newlines(tokens: Seq<TokenView>, pos: int) -> int
    decreases tokens.len() - pos,
{
    if kind_at(tokens, pos) == Some(TokenKindView::Newline) {
        consume_newlines(tokens, pos + 1)
    } else {
        pos
    }
}

/// A token of the given kind at `pos`.
pub open spec fn expect_kind(tokens: Seq<TokenView>, pos: int, expected: TokenKindView) -> Parsed<()> {
    match token_at(tokens, pos) {
        Some(token) => if token.kind == expected {
            Ok(((), pos + 1))
        } else {
            Err(unexpected(kind_debug(expected), token))
        },
        None => Err(unexpected_eof(tokens, pos)),
    }
}

/// A primary expression: a number, a variable, or an expression in
/// parentheses.
pub open spec fn parse_primary(tokens: Seq<TokenView>, pos: int) -> Parsed<ExpressionView>
    decreases tokens.len() - pos, 0nat,
{
    match token_at(tokens, pos) {
        None => Err(unexpected_eof(tokens, pos)),
        Some(token) => match token.kind {
            TokenKindView::Number(n) => Ok((ExpressionView::Number(n, token.span), pos + 1)),
            TokenKindView::Identifier(name) => Ok(
                (ExpressionView::Variable(name, token.span), pos + 1),
            ),
            TokenKindView::LParen => match parse_expression(tokens, pos + 1) {
                Ok((inner, closing)) => match expect_kind(tokens, closing, TokenKindView::RParen) {
                    Ok((_, next)) => Ok((inner, next)),
                    Err(error) => Err(error),
                },
                Err(error) => Err(error),
            },
            _ => Err(unexpected("number, variable, or '('"@, token)),
        },
    }
}

/// The operator that a token kind stands for in an expression.
pub open spec fn additive_operator(kind: Option<TokenKindView>) -> Option<BinaryOperator> {
    match kind {
        Some(TokenKindView::Plus) => Some(BinaryOperator::Add),
        Some(TokenKindView::Minus) => Some(BinaryOperator::Subtract),
        _ => None,
    }
}

/// The rest of an expression of which `left` has been read: any number of
/// `+` and `-` with a primary expression each, grouped to the left. Each
/// operation carries the span of the token behind its right operand.
pub open spec fn parse_operators(tokens: Seq<TokenView>, pos: int, left: ExpressionView) -> Parsed<
    ExpressionView,
>
    decreases tokens.len() - pos, 1nat,
{
    match additive_operator(kind_at(tokens, pos)) {
        None => Ok((left, pos)),
        Some(op) => match parse_primary(tokens, pos + 1) {
            Err(error) => Err(error),
            Ok((right, next)) => if pos < next <= tokens.len() {
                parse_operators(
                    tokens,
                    next,
                    ExpressionView::BinaryOp {
                        left: Box::new(left),
                        op,
                        right: Box::new(right),
                        span: span_at(tokens, next),
                    },
                )
            } else {
                Ok((left, pos))
            },
        },
    }
}

/// An expression: primary expressions joined by `+` and `-`.
pub open spec fn parse_expression(tokens: Seq<TokenView>, pos: int) -> Parsed<ExpressionView>
    decreases tokens.len() - pos, 2nat,
{
    match parse_primary(tokens, pos) {
        Err(error) => Err(error),
        Ok((left, next)) => if pos < next <= tokens.len() {
            parse_operators(tokens, next, left)
        } else {
            Ok((left, pos))
        },
    }
}

/// The condition of a loop: `True`, or two expressions joined by `==`,
/// `!=`, `>` or `<`.
pub open spec fn parse_condition(tokens: Seq<TokenView>, pos: int) -> Parsed<ConditionView> {
    match kind_at(tokens, pos) {
        Some(TokenKindView::True) => Ok((ConditionView::True, pos + 1)),
        Some(TokenKindView::Identifier(_)) | Some(TokenKindView::Number(_)) => match parse_expression(
            tokens,
            pos,
        ) {
            Err(error) => Err(error),
            Ok((left, at_op)) => match token_at(tokens, at_op) {
                None => Err(unexpected_eof(tokens, at_op)),
                Some(op) => {
                    let right = parse_expression(tokens, at_op + 1);
                    match op.kind {
                        TokenKindView::Equal => match right {
                            Ok((right, next)) => Ok((ConditionView::Equal(left, right), next)),
                            Err(error) => Err(error),
                        },
                        TokenKindView::NotEqual => match right {
                            Ok((right, next)) => Ok((ConditionView::NotEqual(left, right), next)),
                            Err(error) => Err(error),
                        },
                        TokenKindView::Greater => match right {
                            Ok((right, next)) => Ok((ConditionView::Greater(left, right), next)),
                            Err(error) => Err(error),
                        },
                        TokenKindView::Less => match right {
                            Ok((right, next)) => Ok((ConditionView::Less(left, right), next)),
                            Err(error) => Err(error),
                        },
                        _ => Err(unexpected("comparison operator (==, !=, >, <)"@, op)),
                    }
                },
            },
        },
        _ => Err(
            ParseErrorView::SyntaxError {
                line: span_at(tokens, pos).line,
                column: span_at(tokens, pos).column,
                message: "Expected condition"@,
            },
        ),
    }
}

/// The arguments of `range`: the start and the end of the range, or the
/// end alone, in which case the range starts at zero.
pub open spec fn parse_range_arguments(tokens: Seq<TokenView>, pos: int) -> Parsed<
    (ExpressionView, ExpressionView),
> {
    match parse_expression(tokens, pos) {
        Err(error) => Err(error),
        Ok((first, next)) => if kind_at(tokens, next) == Some(TokenKindView::Comma) {
            match parse_expression(tokens, next + 1) {
                Ok((second, end)) => Ok(((first, second), end)),
                Err(error) => Err(error),
            }
        } else {
            Ok(((ExpressionView::Number(0, span_at(tokens, next)), first), next))
        },
    }
}

/// The call of a built-in function; `pos` stands behind the name, and
/// `start` is the span of the name.
///
/// `clear()` clears the display and `print(x, y, 'c')` draws a character.
/// `range` may only stand in the head of a `for` loop, and there is no
/// other function.
pub open spec fn parse_function_call(tokens: Seq<TokenView>, pos: int, name: Seq<char>, start: Span) -> Parsed<
    Option<StatementView>,
> {
    match expect_kind(tokens, pos, TokenKindView::LParen) {
        Err(error) => Err(error),
        Ok((_, inside)) => if name == "clear"@ {
            match expect_kind(tokens, inside, TokenKindView::RParen) {
                Ok((_, next)) => Ok((Some(StatementView::ClearScreen), next)),
                Err(error) => Err(error),
            }
        } else if name == "print"@ {
            parse_print_arguments(tokens, inside, start)
        } else if name == "range"@ {
            Err(
                ParseErrorView::SyntaxError {
                    line: start.line,
                    column: start.column,
                    message: "range() can only be used in for loops"@,
                },
            )
        } else {
            Err(
                ParseErrorView::SyntaxError {
                    line: start.line,
                    column: start.column,
                    message: "Unknown function: "@ + name,
                },
            )
        },
    }
}

/// The arguments of `print` and its closing parenthesis: two expressions
/// and a character literal, separated by commas.
pub open spec fn parse_print_arguments(tokens: Seq<TokenView>, pos: int, start: Span) -> Parsed<
    Option<StatementView>,
> {
    match parse_expression(tokens, pos) {
        Err(error) => Err(error),
        Ok((x, after_x)) => match expect_kind(tokens, after_x, TokenKindView::Comma) {
            Err(error) => Err(error),
            Ok((_, at_y)) => match parse_expression(tokens, at_y) {
                Err(error) => Err(error),
                Ok((y, after_y)) => match expect_kind(tokens, after_y, TokenKindView::Comma) {
                    Err(error) => Err(error),
                    Ok((_, at_char)) => match token_at(tokens, at_char) {
                        None => Err(unexpected_eof(tokens, at_char)),
                        Some(token) => match token.kind {
                            TokenKindView::CharLiteral(character) => match expect_kind(
                                tokens,
                                at_char + 1,
                                TokenKindView::RParen,
                            ) {
                                Err(error) => Err(error),
                                Ok((_, next)) => Ok(
                                    (
                                        Some(
                                            StatementView::Print {
                                                x,
                                                y,
                                                character,
                                                span: span_from(tokens, start, next),
                                            },
                                        ),
                                        next,
                                    ),
                                ),
                            },
                            _ => Err(unexpected("character literal"@, token)),
                        },
                    },
                },
            },
        },
    }
}

/// An assignment or a call; `pos` stands on the name.
pub open spec fn parse_assignment_or_call(tokens: Seq<TokenView>, pos: int, name: Seq<char>) -> Parsed<
    Option<StatementView>,
> {
    let start = span_at(tokens, pos);
    let after_name = step(tokens, pos);
    match kind_at(tokens, after_name) {
        Some(TokenKindView::Assign) => match parse_expression(tokens, after_name + 1) {
            Ok((value, next)) => Ok(
                (
                    Some(StatementView::Assign { target: name, value, span: span_at(tokens, next) }),
                    next,
                ),
            ),
            Err(error) => Err(error),
        },
        Some(TokenKindView::LParen) => parse_function_call(tokens, after_name, name, start),
        other => Err(
            ParseErrorView::UnexpectedToken {
                expected: "'=' or '('"@,
                found: match other {
                    Some(kind) => kind,
                    None => TokenKindView::Eof,
                },
                line: span_at(tokens, after_name).line,
                column: span_at(tokens, after_name).column,
            },
        ),
    }
}

/// What a statement, or the absence of one, makes of an error of the
/// parser: the compile error that reports it.
pub open spec fn as_compile_error<T>(parsed: Parsed<T>) -> Result<(T, int), CompileErrorView> {
    match parsed {
        Ok(value) => Ok(value),
        Err(error) => Err(from_parse_error(error)),
    }
}

/// The error with which a block reports an error of one of its statements.
pub open spec fn nested_error(error: CompileErrorView) -> ParseErrorView {
    ParseErrorView::SyntaxError { line: 1, column: 1, message: compile_error_text(error) }
}

/// Whether a block ends before the token at `pos`.
pub open spec fn block_ends(tokens: Seq<TokenView>, pos: int) -> bool {
    match kind_at(tokens, pos) {
        Some(TokenKindView::While) | Some(TokenKindView::If) | Some(TokenKindView::Def) => true,
        Some(TokenKindView::Newline) => match kind_at(tokens, pos + 1) {
            Some(TokenKindView::While) | Some(TokenKindView::If) | Some(TokenKindView::Def) | Some(
                TokenKindView::For,
            ) => true,
            _ => false,
        },
        _ => false,
    }
}

/// The rest of a block of which the statements `acc` have been read.
pub open spec fn parse_block(tokens: Seq<TokenView>, pos: int, acc: Seq<StatementView>) -> Parsed<
    Seq<StatementView>,
>
    decreases tokens.len() - pos, 3nat,
{
    if at_end(tokens, pos) || block_ends(tokens, pos) {
        Ok((acc, pos))
    } else if kind_at(tokens, pos) == Some(TokenKindView::Newline) {
        parse_block(tokens, pos + 1, acc)
    } else {
        match parse_statement(tokens, pos) {
            Err(error) => Err(nested_error(error)),
            Ok((None, next)) => Ok((acc, next)),
            Ok((Some(statement), next)) => if pos < next <= tokens.len() {
                parse_block(tokens, next, acc.push(statement))
            } else {
                Ok((acc, pos))
            },
        }
    }
}

/// A `while` loop; `pos` stands on the keyword.
pub open spec fn parse_while(tokens: Seq<TokenView>, pos: int) -> Parsed<Option<StatementView>>
    decreases tokens.len() - pos, 1nat,
{
    let start = span_at(tokens, pos);
    match parse_condition(tokens, pos + 1) {
        Err(error) => Err(error),
        Ok((condition, at_colon)) => match expect_kind(tokens, at_colon, TokenKindView::Colon) {
            Err(error) => Err(error),
            Ok((_, after_colon)) => {
                let at_body = consume_newlines(tokens, after_colon);
                if pos < at_body <= tokens.len() {
                    match parse_block(tokens, at_body, Seq::empty()) {
                        Err(error) => Err(error),
                        Ok((body, next)) => Ok(
                            (
                                Some(
                                    StatementView::While {
                                        condition,
                                        body,
                                        span: Span {
                                            line: start.line,
                                            column: start.column,
                                            start: start.start,
                                            end: span_at(tokens, next).end,
                                        },
                                    },
                                ),
                                next,
                            ),
                        ),
                    }
                } else {
                    Err(unexpected_eof(tokens, pos))
                }
            },
        },
    }
}

/// The head of a `for` loop up to and including the colon: the counter and
/// the range. `pos` stands behind the keyword.
pub open spec fn parse_for_head(tokens: Seq<TokenView>, pos: int) -> Parsed<
    (Seq<char>, ExpressionView, ExpressionView),
> {
    match token_at(tokens, pos) {
        None => Err(unexpected_eof(tokens, pos)),
        Some(token) => match token.kind {
            TokenKindView::Identifier(variable) => match expect_kind(
                tokens,
                pos + 1,
                TokenKindView::In,
            ) {
                Err(error) => Err(error),
                Ok((_, at_range)) => match expect_kind(
                    tokens,
                    at_range,
                    TokenKindView::Identifier("range"@),
                ) {
                    Err(error) => Err(error),
                    Ok((_, at_paren)) => match expect_kind(tokens, at_paren, TokenKindView::LParen) {
                        Err(error) => Err(error),
                        Ok((_, at_arguments)) => match parse_range_arguments(tokens, at_arguments) {
                            Err(error) => Err(error),
                            Ok(((start, end), at_close)) => match expect_kind(
                                tokens,
                                at_close,
                                TokenKindView::RParen,
                            ) {
                                Err(error) => Err(error),
                                Ok((_, at_colon)) => match expect_kind(
                                    tokens,
                                    at_colon,
                                    TokenKindView::Colon,
                                ) {
                                    Err(error) => Err(error),
                                    Ok((_, next)) => Ok(((variable, start, end), next)),
                                },
                            },
                        },
                    },
                },
            },
            _ => Err(unexpected("identifier"@, token)),
        },
    }
}

/// A `for` loop; `pos` stands on the keyword.
pub open spec fn parse_for(tokens: Seq<TokenView>, pos: int) -> Parsed<Option<StatementView>>
    decreases tokens.len() - pos, 1nat,
{
    let first = span_at(tokens, pos);
    match parse_for_head(tokens, pos + 1) {
        Err(error) => Err(error),
        Ok(((variable, start, end), after_colon)) => {
            let at_body = consume_newlines(tokens, after_colon);
            if pos < at_body <= tokens.len() {
                match parse_block(tokens, at_body, Seq::empty()) {
                    Err(error) => Err(error),
                    Ok((body, next)) => Ok(
                        (
                            Some(
                                StatementView::For {
                                    variable,
                                    start,
                                    end,
                                    body,
                                    span: Span {
                                        line: first.line,
                                        column: first.column,
                                        start: first.start,
                                        end: span_at(tokens, next).end,
                                    },
                                },
                            ),
                            next,
                        ),
                    ),
                }
            } else {
                Err(unexpected_eof(tokens, pos))
            }
        },
    }
}

/// One statement, or nothing: a line feed, `pass` and any token that
/// starts no statement are passed over.
pub open spec fn parse_statement(tokens: Seq<TokenView>, pos: int) -> Result<
    (Option<StatementView>, int),
    CompileErrorView,
>
    decreases tokens.len() - pos, 2nat,
{
    match kind_at(tokens, pos) {
        Some(TokenKindView::Identifier(name)) => as_compile_error(
            parse_assignment_or_call(tokens, pos, name),
        ),
        Some(TokenKindView::While) => as_compile_error(parse_while(tokens, pos)),
        Some(TokenKindView::For) => as_compile_error(parse_for(tokens, pos)),
        _ => Ok((None, step(tokens, pos))),
    }
}

/// The rest of a program of which the statements `acc` have been read.
pub open spec fn parse_statements(tokens: Seq<TokenView>, pos: int, acc: Seq<StatementView>) -> Result<
    Seq<StatementView>,
    CompileErrorView,
>
    decreases tokens.len() - pos,
{
    if at_end(tokens, pos) {
        Ok(acc)
    } else {
        match parse_statement(tokens, pos) {
            Err(error) => Err(error),
            Ok((statement, next)) => {
                let after = consume_newlines(tokens, next);
                if pos < after <= tokens.len() {
                    parse_statements(
                        tokens,
                        after,
                        match statement {
                            Some(statement) => acc.push(statement),
                            None => acc,
                        },
                    )
                } else {
                    Ok(acc)
                }
            },
        }
    }
}

/// The program that a sequence of tokens is, or the first error in it.
pub open spec fn parse_program(tokens: Seq<TokenView>) -> Result<Seq<StatementView>, CompileErrorView> {
    parse_statements(tokens, 0, Seq::empty())
}


/// Skipping line feeds stays within the tokens and never moves back.
pub proof fn lemma_consume_newlines_bounds(tokens: Seq<TokenView>, pos: int)
    requires
        0 <= pos <= tokens.len(),
    ensures
        pos <= consume_newlines(tokens, pos) <= tokens.len(),
    decreases tokens.len() - pos,
{
    if kind_at(tokens, pos) == Some(TokenKindView::Newline) {
        lemma_consume_newlines_bounds(tokens, pos + 1);
    }
}

/// A primary expression consumes at least one token and stays within the
/// tokens.
pub proof fn lemma_primary_advances(tokens: Seq<TokenView>, pos: int)
    requires
        0 <= pos,
    ensures
        parse_primary(tokens, pos) matches Ok((_, next)) ==> pos < next <= tokens.len(),
    decreases tokens.len() - pos, 0nat,
{
    if pos < tokens.len() && tokens[pos].kind is LParen {
        lemma_expression_advances(tokens, pos + 1);
    }
}

/// The operators behind a left operand stay within the tokens and never
/// move back.
pub proof fn lemma_operators_bounds(tokens: Seq<TokenView>, pos: int, left: ExpressionView)
    requires
        0 <= pos <= tokens.len(),
    ensures
        parse_operators(tokens, pos, left) matches Ok((_, next)) ==> pos <= next <= tokens.len(),
    decreases tokens.len() - pos, 1nat,
{
    match additive_operator(kind_at(tokens, pos)) {
        None => {},
        Some(op) => {
            lemma_primary_advances(tokens, pos + 1);
            match parse_primary(tokens, pos + 1) {
                Err(_) => {},
                Ok((right, next)) => {
                    lemma_operators_bounds(
                        tokens,
                        next,
                        ExpressionView::BinaryOp {
                            left: Box::new(left),
                            op,
                            right: Box::new(right),
                            span: span_at(tokens, next),
                        },
                    );
                },
            }
        },
    }
}

/// An expression consumes at least one token and stays within the tokens.
pub proof fn lemma_expression_advances(tokens: Seq<TokenView>, pos: int)
    requires
        0 <= pos,
    ensures
        parse_expression(tokens, pos) matches Ok((_, next)) ==> pos < next <= tokens.len(),
    decreases tokens.len() - pos, 2nat,
{
    lemma_primary_advances(tokens, pos);
    match parse_primary(tokens, pos) {
        Err(_) => {},
        Ok((left, next)) => {
            lemma_operators_bounds(tokens, next, left);
        },
    }
}

/// A condition consumes at least one token and stays within the tokens.
pub proof fn lemma_condition_advances(tokens: Seq<TokenView>, pos: int)
    requires
        0 <= pos,
    ensures
        parse_condition(tokens, pos) matches Ok((_, next)) ==> pos < next <= tokens.len(),
{
    lemma_expression_advances(tokens, pos);
    match parse_expression(tokens, pos) {
        Err(_) => {},
        Ok((_, at_op)) => {
            lemma_expression_advances(tokens, at_op + 1);
        },
    }
}

/// The arguments of `range` consume at least one token and stay within the
/// tokens.
pub proof fn lemma_range_arguments_advance(tokens: Seq<TokenView>, pos: int)
    requires
        0 <= pos,
    ensures
        parse_range_arguments(tokens, pos) matches Ok((_, next)) ==> pos < next <= tokens.len(),
{
    lemma_expression_advances(tokens, pos);
    match parse_expression(tokens, pos) {
        Err(_) => {},
        Ok((_, next)) => {
            lemma_expression_advances(tokens, next + 1);
        },
    }
}

/// The head of a `for` loop consumes at least one token and stays within
/// the tokens.
pub proof fn lemma_for_head_advances(tokens: Seq<TokenView>, pos: int)
    requires
        0 <= pos,
    ensures
        parse_for_head(tokens, pos) matches Ok((_, next)) ==> pos < next <= tokens.len(),
{
    if pos + 3 < tokens.len() {
        lemma_range_arguments_advance(tokens, pos + 4);
    }
}

/// A call consumes at least one token and stays within the tokens.
pub proof fn lemma_function_call_advances(tokens: Seq<TokenView>, pos: int, name: Seq<char>, start: Span)
    requires
        0 <= pos,
    ensures
        parse_function_call(tokens, pos, name, start) matches Ok((_, next)) ==> pos < next
            <= tokens.len(),
{
    lemma_expression_advances(tokens, pos + 1);
    match parse_expression(tokens, pos + 1) {
        Err(_) => {},
        Ok((_, after_x)) => {
            lemma_expression_advances(tokens, after_x + 1);
        },
    }
}

/// A block stays within the tokens and never moves back.
pub proof fn lemma_block_bounds(tokens: Seq<TokenView>, pos: int, acc: Seq<StatementView>)
    requires
        0 <= pos <= tokens.len(),
    ensures
        parse_block(tokens, pos, acc) matches Ok((_, next)) ==> pos <= next <= tokens.len(),
    decreases tokens.len() - pos, 3nat,
{
    if at_end(tokens, pos) || block_ends(tokens, pos) {
    } else if kind_at(tokens, pos) == Some(TokenKindView::Newline) {
        lemma_block_bounds(tokens, pos + 1, acc);
    } else {
        lemma_statement_advances(tokens, pos);
        match parse_statement(tokens, pos) {
            Ok((Some(statement), next)) => {
                lemma_block_bounds(tokens, next, acc.push(statement));
            },
            _ => {},
        }
    }
}

/// A `while` loop consumes at least one token and stays within the tokens.
pub proof fn lemma_while_advances(tokens: Seq<TokenView>, pos: int)
    requires
        0 <= pos < tokens.len(),
    ensures
        parse_while(tokens, pos) matches Ok((_, next)) ==> pos < next <= tokens.len(),
    decreases tokens.len() - pos, 1nat,
{
    lemma_condition_advances(tokens, pos + 1);
    match parse_condition(tokens, pos + 1) {
        Err(_) => {},
        Ok((_, at_colon)) => {
            match expect_kind(tokens, at_colon, TokenKindView::Colon) {
                Err(_) => {},
                Ok((_, after_colon)) => {
                    lemma_consume_newlines_bounds(tokens, after_colon);
                    lemma_block_bounds(tokens, consume_newlines(tokens, after_colon), Seq::empty());
                },
            }
        },
    }
}

/// A `for` loop consumes at least one token and stays within the tokens.
pub proof fn lemma_for_advances(tokens: Seq<TokenView>, pos: int)
    requires
        0 <= pos < tokens.len(),
    ensures
        parse_for(tokens, pos) matches Ok((_, next)) ==> pos < next <= tokens.len(),
    decreases tokens.len() - pos, 1nat,
{
    lemma_for_head_advances(tokens, pos + 1);
    match parse_for_head(tokens, pos + 1) {
        Err(_) => {},
        Ok((_, after_colon)) => {
            lemma_consume_newlines_bounds(tokens, after_colon);
            lemma_block_bounds(tokens, consume_newlines(tokens, after_colon), Seq::empty());
        },
    }
}

/// A statement, or a token that is passed over, consumes at least one token
/// and stays within the tokens. Together with the lemmas on expressions,
/// blocks and loops this shows that the parser always moves forward: the
/// grammar never takes the way out that it keeps for a step that stands
/// still.
pub proof fn lemma_statement_advances(tokens: Seq<TokenView>, pos: int)
    requires
        0 <= pos < tokens.len(),
    ensures
        parse_statement(tokens, pos) matches Ok((_, next)) ==> pos < next <= tokens.len(),
    decreases tokens.len() - pos, 2nat,
{
    match kind_at(tokens, pos) {
        Some(TokenKindView::Identifier(name)) => {
            lemma_expression_advances(tokens, pos + 2);
            lemma_function_call_advances(tokens, pos + 1, name, span_at(tokens, pos));
        },
        Some(TokenKindView::While) => {
            lemma_while_advances(tokens, pos);
        },
        Some(TokenKindView::For) => {
            lemma_for_advances(tokens, pos);
        },
        _ => {},
    }
}

} // verus!
