//! The parser: from tokens to a syntax tree, by recursive descent.

use vstd::prelude::*;
use vstd::string::StringExecFns;
use crate::error::{debug_kind, CompileError, CompileErrorView, ParseError, ParseErrorView};
use crate::ir::ast::{
    block_view, BinaryOperator, Condition, Expression, ExpressionView, Program, Statement,
    StatementView,
};
use crate::parser::grammar;
use crate::parser::grammar::Parsed;
use crate::parser::lexer::{tokens_view, Token, TokenKind, TokenView};
use crate::span::Span;
use crate::text::push_text;

verus! {

/// What the result of parsing stands for.
pub open spec fn parsed_view(result: Result<Program, CompileError>) -> Result<
    Seq<StatementView>,
    CompileErrorView,
> {
    match result {
        Ok(program) => Ok(program@),
        Err(error) => Err(error@),
    }
}

/// Turns a sequence of tokens into a program.
pub fn parse_tokens(tokens: Vec<Token>) -> (result: Result<Program, CompileError>)
    ensures
        parsed_view(result) == grammar::parse_program(tokens_view(tokens@)),
{
    let mut parser = Parser::new(tokens);
    parser.parse_program()
}

struct Parser {
    tokens: Vec<Token>,
    position: usize,
}

/// Whether a step of the parser did what the grammar says: on success the
/// piece of syntax `value` and the position `end`, on failure the error.
spec fn agrees<T>(value: Option<T>, error: Option<ParseErrorView>, end: int, expected: Parsed<T>) -> bool {
    match expected {
        Ok((wanted, next)) => value == Some(wanted) && error is None && end == next,
        Err(wanted) => value is None && error == Some(wanted),
    }
}

/// The piece of syntax that a result holds, seen through `view`.
spec fn value_of<A, B>(result: Result<A, ParseError>, view: spec_fn(A) -> B) -> Option<B> {
    match result {
        Ok(value) => Some(view(value)),
        Err(_) => None,
    }
}

/// The error that a result holds.
spec fn error_of<A>(result: Result<A, ParseError>) -> Option<ParseErrorView> {
    match result {
        Ok(_) => None,
        Err(error) => Some(error@),
    }
}

/// What an optional statement stands for.
spec fn optional_view(statement: Option<Statement>) -> Option<StatementView> {
    match statement {
        Some(statement) => Some(statement@),
        None => None,
    }
}

impl Parser {
    /// The tokens, as the grammar sees them.
    spec fn input(&self) -> Seq<TokenView> {
        tokens_view(self.tokens@)
    }

    /// The position never runs past the end of the tokens.
    spec fn wf(&self) -> bool {
        self.position <= self.tokens.len()
    }

    fn new(tokens: Vec<Token>) -> (parser: Parser)
        ensures
            parser.wf(),
            parser.input() == tokens_view(tokens@),
            parser.position == 0,
    {
        Parser { tokens, position: 0 }
    }

    fn peek_kind(&self) -> (kind: Option<&TokenKind>)
        requires
            self.wf(),
        ensures
            match kind {
                Some(kind) => grammar::kind_at(self.input(), self.position as int) == Some(kind@),
                None => grammar::kind_at(self.input(), self.position as int) is None,
            },
    {
        match self.peek() {
            Some(token) => Some(&token.kind),
            None => None,
        }
    }

    fn check_kind(&self, kind: TokenKind) -> (same: bool)
        requires
            self.wf(),
        ensures
            same == (grammar::kind_at(self.input(), self.position as int) == Some(kind@)),
    {
        match self.peek_kind() {
            Some(found) => found.same(&kind),
            None => false,
        }
    }

    fn expect_kind(&mut self, expected: TokenKind) -> (result: Result<(), ParseError>)
        requires
            old(self).wf(),
        ensures
            final(self).wf(),
            final(self).tokens == old(self).tokens,
            agrees(
                value_of(result, |unit: ()| unit),
                error_of(result),
                final(self).position as int,
                grammar::expect_kind(old(self).input(), old(self).position as int, expected@),
            ),
    {
        let current_line = self.current_line();
        let current_column = self.current_column();
        match self.advance() {
            Some(at) => {
                if self.tokens[at].kind.same(&expected) {
                    Ok(())
                } else {
                    Err(
                        ParseError::UnexpectedToken {
                            expected: debug_kind(&expected),
                            found: self.tokens[at].kind.duplicate(),
                            line: self.tokens[at].span.line,
                            column: self.tokens[at].span.column,
                        },
                    )
                }
            },
            None => Err(ParseError::UnexpectedEof { line: current_line, column: current_column }),
        }
    }

    fn parse_program(&mut self) -> (result: Result<Program, CompileError>)
        requires
            old(self).wf(),
        ensures
            parsed_view(result) == grammar::parse_statements(
                old(self).input(),
                old(self).position as int,
                Seq::empty(),
            ),
    {
        let mut statements: Vec<Statement> = Vec::new();
        assert(block_view(statements@) =~= Seq::empty());
        while !self.is_at_end()
            invariant
                self.wf(),
                self.tokens == old(self).tokens,
                grammar::parse_statements(self.input(), self.position as int, block_view(statements@))
                    == grammar::parse_statements(
                    old(self).input(),
                    old(self).position as int,
                    Seq::empty(),
                ),
            decreases self.tokens.len() - self.position,
        {
            let ghost seen = block_view(statements@);
            match self.parse_statement() {
                Ok(Some(statement)) => {
                    statements.push(statement);
                    assert(block_view(statements@) =~= seen.push(statement@));
                },
                Ok(None) => {},
                Err(error) => {
                    return Err(error);
                },
            }
            self.consume_newlines();
        }
        Ok(Program { statements })
    }

    fn is_at_end(&self) -> (end: bool)
        requires
            self.wf(),
        ensures
            end == grammar::at_end(self.input(), self.position as int),
    {
        match self.peek_kind() {
            Some(kind) => kind.same(&TokenKind::Eof),
            None => true,
        }
    }

    fn parse_statement(&mut self) -> (result: Result<Option<Statement>, CompileError>)
        requires
            old(self).wf(),
            grammar::kind_at(old(self).input(), old(self).position as int) is Some,
        ensures
            final(self).wf(),
            final(self).tokens == old(self).tokens,
            match grammar::parse_statement(old(self).input(), old(self).position as int) {
                Ok((statement, next)) => result matches Ok(got) && optional_view(got) == statement
                    && final(self).position == next && old(self).position < next,
                Err(error) => result matches Err(got) && got@ == error,
            },
        decreases old(self).tokens.len() - old(self).position, 2nat,
    {
        let parsed = match self.peek_kind() {
            Some(TokenKind::Identifier(name)) => {
                let name = name.clone();
                self.parse_assignment_or_call(name)
            },
            Some(TokenKind::While) => self.parse_while(),
            Some(TokenKind::For) => self.parse_for(),
            _ => {
                self.advance();
                return Ok(None);
            },
        };
        match parsed {
            Ok(statement) => Ok(statement),
            Err(error) => Err(CompileError::from_parse_error(&error)),
        }
    }

    fn parse_assignment_or_call(&mut self, name: String) -> (result: Result<Option<Statement>, ParseError>)
        requires
            old(self).wf(),
            grammar::kind_at(old(self).input(), old(self).position as int) is Some,
        ensures
            final(self).wf(),
            final(self).tokens == old(self).tokens,
            agrees(
                value_of(result, |statement: Option<Statement>| optional_view(statement)),
                error_of(result),
                final(self).position as int,
                grammar::parse_assignment_or_call(old(self).input(), old(self).position as int, name@),
            ),
            result is Ok ==> old(self).position < final(self).position,
    {
        let start_span = self.current_span();
        self.advance();
        let parsed_kind = match self.peek_kind() {
            Some(TokenKind::Assign) => 1u8,
            Some(TokenKind::LParen) => 2u8,
            _ => 0u8,
        };
        if parsed_kind == 1 {
            self.advance();
            let value = match self.parse_expression() {
                Ok(value) => value,
                Err(error) => {
                    return Err(error);
                },
            };
            Ok(Some(Statement::Assign { target: name, value, span: self.current_span() }))
        } else if parsed_kind == 2 {
            self.parse_function_call(name, &start_span)
        } else {
            let current = self.current_span();
            let found = match self.peek_kind() {
                Some(kind) => kind.duplicate(),
                None => TokenKind::Eof,
            };
            Err(
                ParseError::UnexpectedToken {
                    expected: String::from_str("'=' or '('"),
                    found,
                    line: current.line,
                    column: current.column,
                },
            )
        }
    }

    fn parse_function_call(&mut self, name: String, start_span: &Span) -> (result: Result<
        Option<Statement>,
        ParseError,
    >)
        requires
            old(self).wf(),
        ensures
            final(self).wf(),
            final(self).tokens == old(self).tokens,
            agrees(
                value_of(result, |statement: Option<Statement>| optional_view(statement)),
                error_of(result),
                final(self).position as int,
                grammar::parse_function_call(
                    old(self).input(),
                    old(self).position as int,
                    name@,
                    *start_span,
                ),
            ),
            result is Ok ==> old(self).position < final(self).position,
    {
        match self.expect_kind(TokenKind::LParen) {
            Ok(_) => {},
            Err(error) => {
                return Err(error);
            },
        }
        if crate::text::same_text(name.as_str(), "clear") {
            match self.expect_kind(TokenKind::RParen) {
                Ok(_) => {},
                Err(error) => {
                    return Err(error);
                },
            }
            Ok(Some(Statement::ClearScreen))
        } else if crate::text::same_text(name.as_str(), "print") {
            self.parse_print_arguments(start_span)
        } else if crate::text::same_text(name.as_str(), "range") {
            Err(
                ParseError::SyntaxError {
                    line: start_span.line,
                    column: start_span.column,
                    message: String::from_str("range() can only be used in for loops"),
                },
            )
        } else {
            let mut message = String::from_str("Unknown function: ");
            push_text(&mut message, name.as_str());
            Err(
                ParseError::SyntaxError {
                    line: start_span.line,
                    column: start_span.column,
                    message,
                },
            )
        }
    }

    fn parse_print_arguments(&mut self, start_span: &Span) -> (result: Result<
        Option<Statement>,
        ParseError,
    >)
        requires
            old(self).wf(),
        ensures
            final(self).wf(),
            final(self).tokens == old(self).tokens,
            agrees(
                value_of(result, |statement: Option<Statement>| optional_view(statement)),
                error_of(result),
                final(self).position as int,
                grammar::parse_print_arguments(
                    old(self).input(),
                    old(self).position as int,
                    *start_span,
                ),
            ),
            result is Ok ==> old(self).position < final(self).position,
    {
        let x = match self.parse_expression() {
            Ok(x) => x,
            Err(error) => {
                return Err(error);
            },
        };
        match self.expect_kind(TokenKind::Comma) {
            Ok(_) => {},
            Err(error) => {
                return Err(error);
            },
        }
        let y = match self.parse_expression() {
            Ok(y) => y,
            Err(error) => {
                return Err(error);
            },
        };
        match self.expect_kind(TokenKind::Comma) {
            Ok(_) => {},
            Err(error) => {
                return Err(error);
            },
        }
        let current_line = self.current_line();
        let current_column = self.current_column();
        let at = match self.advance() {
            Some(at) => at,
            None => {
                return Err(
                    ParseError::UnexpectedEof { line: current_line, column: current_column },
                );
            },
        };
        let character = match &self.tokens[at].kind {
            TokenKind::CharLiteral(ch) => *ch,
            _ => {
                return Err(
                    ParseError::UnexpectedToken {
                        expected: String::from_str("character literal"),
                        found: self.tokens[at].kind.duplicate(),
                        line: self.tokens[at].span.line,
                        column: self.tokens[at].span.column,
                    },
                );
            },
        };
        match self.expect_kind(TokenKind::RParen) {
            Ok(_) => {},
            Err(error) => {
                return Err(error);
            },
        }
        let span = self.create_span_from(start_span);
        Ok(Some(Statement::Print { x, y, character, span }))
    }

    fn parse_expression(&mut self) -> (result: Result<Expression, ParseError>)
        requires
            old(self).wf(),
        ensures
            final(self).wf(),
            final(self).tokens == old(self).tokens,
            agrees(
                value_of(result, |expression: Expression| expression@),
                error_of(result),
                final(self).position as int,
                grammar::parse_expression(old(self).input(), old(self).position as int),
            ),
            result is Ok ==> old(self).position < final(self).position,
        decreases old(self).tokens.len() - old(self).position, 2nat,
    {
        let mut left = match self.parse_primary() {
            Ok(left) => left,
            Err(error) => {
                return Err(error);
            },
        };
        loop
            invariant_except_break
                grammar::parse_operators(self.input(), self.position as int, left@)
                    == grammar::parse_expression(old(self).input(), old(self).position as int),
            invariant
                self.wf(),
                self.tokens == old(self).tokens,
                old(self).position < self.position,
            ensures
                grammar::parse_expression(old(self).input(), old(self).position as int) == Ok::<
                    (ExpressionView, int),
                    ParseErrorView,
                >((left@, self.position as int)),
            decreases self.tokens.len() - self.position,
        {
            let op = match self.peek_kind() {
                Some(TokenKind::Plus) => BinaryOperator::Add,
                Some(TokenKind::Minus) => BinaryOperator::Subtract,
                _ => {
                    break;
                },
            };
            self.advance();
            let right = match self.parse_primary() {
                Ok(right) => right,
                Err(error) => {
                    return Err(error);
                },
            };
            left = Expression::BinaryOp {
                left: Box::new(left),
                op,
                right: Box::new(right),
                span: self.current_span(),
            };
        }
        Ok(left)
    }

    fn parse_primary(&mut self) -> (result: Result<Expression, ParseError>)
        requires
            old(self).wf(),
        ensures
            final(self).wf(),
            final(self).tokens == old(self).tokens,
            agrees(
                value_of(result, |expression: Expression| expression@),
                error_of(result),
                final(self).position as int,
                grammar::parse_primary(old(self).input(), old(self).position as int),
            ),
            result is Ok ==> old(self).position < final(self).position,
        decreases old(self).tokens.len() - old(self).position, 0nat,
    {
        let current_line = self.current_line();
        let current_column = self.current_column();
        let at = match self.advance() {
            Some(at) => at,
            None => {
                return Err(
                    ParseError::UnexpectedEof { line: current_line, column: current_column },
                );
            },
        };
        let span = self.tokens[at].span;
        let shape = match &self.tokens[at].kind {
            TokenKind::Number(n) => {
                return Ok(Expression::Number(*n, span));
            },
            TokenKind::Identifier(name) => {
                return Ok(Expression::Variable(name.clone(), span));
            },
            TokenKind::LParen => true,
            _ => false,
        };
        if shape {
            let expr = match self.parse_expression() {
                Ok(expr) => expr,
                Err(error) => {
                    return Err(error);
                },
            };
            match self.expect_kind(TokenKind::RParen) {
                Ok(_) => {},
                Err(error) => {
                    return Err(error);
                },
            }
            Ok(expr)
        } else {
            Err(
                ParseError::UnexpectedToken {
                    expected: String::from_str("number, variable, or '('"),
                    found: self.tokens[at].kind.duplicate(),
                    line: span.line,
                    column: span.column,
                },
            )
        }
    }

    fn parse_while(&mut self) -> (result: Result<Option<Statement>, ParseError>)
        requires
            old(self).wf(),
            grammar::kind_at(old(self).input(), old(self).position as int) is Some,
        ensures
            final(self).wf(),
            final(self).tokens == old(self).tokens,
            agrees(
                value_of(result, |statement: Option<Statement>| optional_view(statement)),
                error_of(result),
                final(self).position as int,
                grammar::parse_while(old(self).input(), old(self).position as int),
            ),
            result is Ok ==> old(self).position < final(self).position,
        decreases old(self).tokens.len() - old(self).position, 1nat,
    {
        let first = self.current_span();
        self.advance();
        let condition = match self.parse_condition() {
            Ok(condition) => condition,
            Err(error) => {
                return Err(error);
            },
        };
        match self.expect_kind(TokenKind::Colon) {
            Ok(_) => {},
            Err(error) => {
                return Err(error);
            },
        }
        self.consume_newlines();
        let body = match self.parse_block() {
            Ok(body) => body,
            Err(error) => {
                return Err(error);
            },
        };
        let span = Span {
            line: first.line,
            column: first.column,
            start: first.start,
            end: self.current_span().end,
        };
        Ok(Some(Statement::While { condition, body, span }))
    }

    fn parse_for(&mut self) -> (result: Result<Option<Statement>, ParseError>)
        requires
            old(self).wf(),
            grammar::kind_at(old(self).input(), old(self).position as int) is Some,
        ensures
            final(self).wf(),
            final(self).tokens == old(self).tokens,
            agrees(
                value_of(result, |statement: Option<Statement>| optional_view(statement)),
                error_of(result),
                final(self).position as int,
                grammar::parse_for(old(self).input(), old(self).position as int),
            ),
            result is Ok ==> old(self).position < final(self).position,
        decreases old(self).tokens.len() - old(self).position, 1nat,
    {
        let first = self.current_span();
        self.advance();
        let (variable, start, end) = match self.parse_for_head() {
            Ok(head) => head,
            Err(error) => {
                return Err(error);
            },
        };
        self.consume_newlines();
        let body = match self.parse_block() {
            Ok(body) => body,
            Err(error) => {
                return Err(error);
            },
        };
        let span = Span {
            line: first.line,
            column: first.column,
            start: first.start,
            end: self.current_span().end,
        };
        Ok(Some(Statement::For { variable, start, end, body, span }))
    }

    fn parse_for_head(&mut self) -> (result: Result<(String, Expression, Expression), ParseError>)
        requires
            old(self).wf(),
        ensures
            final(self).wf(),
            final(self).tokens == old(self).tokens,
            agrees(
                value_of(
                    result,
                    |head: (String, Expression, Expression)| (head.0@, head.1@, head.2@),
                ),
                error_of(result),
                final(self).position as int,
                grammar::parse_for_head(old(self).input(), old(self).position as int),
            ),
            result is Ok ==> old(self).position <= final(self).position,
    {
        let current_line = self.current_line();
        let current_column = self.current_column();
        let at = match self.advance() {
            Some(at) => at,
            None => {
                return Err(
                    ParseError::UnexpectedEof { line: current_line, column: current_column },
                );
            },
        };
        let variable = match &self.tokens[at].kind {
            TokenKind::Identifier(name) => name.clone(),
            _ => {
                return Err(
                    ParseError::UnexpectedToken {
                        expected: String::from_str("identifier"),
                        found: self.tokens[at].kind.duplicate(),
                        line: self.tokens[at].span.line,
                        column: self.tokens[at].span.column,
                    },
                );
            },
        };
        match self.expect_kind(TokenKind::In) {
            Ok(_) => {},
            Err(error) => {
                return Err(error);
            },
        }
        match self.expect_kind(TokenKind::Identifier(String::from_str("range"))) {
            Ok(_) => {},
            Err(error) => {
                return Err(error);
            },
        }
        match self.expect_kind(TokenKind::LParen) {
            Ok(_) => {},
            Err(error) => {
                return Err(error);
            },
        }
        let (start, end) = match self.parse_range_arguments() {
            Ok(range) => range,
            Err(error) => {
                return Err(error);
            },
        };
        match self.expect_kind(TokenKind::RParen) {
            Ok(_) => {},
            Err(error) => {
                return Err(error);
            },
        }
        match self.expect_kind(TokenKind::Colon) {
            Ok(_) => {},
            Err(error) => {
                return Err(error);
            },
        }
        Ok((variable, start, end))
    }

    fn parse_range_arguments(&mut self) -> (result: Result<(Expression, Expression), ParseError>)
        requires
            old(self).wf(),
        ensures
            final(self).wf(),
            final(self).tokens == old(self).tokens,
            agrees(
                value_of(result, |range: (Expression, Expression)| (range.0@, range.1@)),
                error_of(result),
                final(self).position as int,
                grammar::parse_range_arguments(old(self).input(), old(self).position as int),
            ),
            result is Ok ==> old(self).position <= final(self).position,
    {
        let start = match self.parse_expression() {
            Ok(start) => start,
            Err(error) => {
                return Err(error);
            },
        };
        if self.check_kind(TokenKind::Comma) {
            self.advance();
            let end = match self.parse_expression() {
                Ok(end) => end,
                Err(error) => {
                    return Err(error);
                },
            };
            Ok((start, end))
        } else {
            Ok((Expression::Number(0, self.current_span()), start))
        }
    }

    fn parse_condition(&mut self) -> (result: Result<Condition, ParseError>)
        requires
            old(self).wf(),
        ensures
            final(self).wf(),
            final(self).tokens == old(self).tokens,
            agrees(
                value_of(result, |condition: Condition| condition@),
                error_of(result),
                final(self).position as int,
                grammar::parse_condition(old(self).input(), old(self).position as int),
            ),
            result is Ok ==> old(self).position <= final(self).position,
    {
        let shape = match self.peek_kind() {
            Some(TokenKind::True) => 1u8,
            Some(TokenKind::Identifier(_)) => 2u8,
            Some(TokenKind::Number(_)) => 2u8,
            _ => 0u8,
        };
        if shape == 1 {
            self.advance();
            Ok(Condition::True)
        } else if shape == 2 {
            let left = match self.parse_expression() {
                Ok(left) => left,
                Err(error) => {
                    return Err(error);
                },
            };
            let current_line = self.current_line();
            let current_column = self.current_column();
            let at = match self.advance() {
                Some(at) => at,
                None => {
                    return Err(
                        ParseError::UnexpectedEof { line: current_line, column: current_column },
                    );
                },
            };
            let op = match &self.tokens[at].kind {
                TokenKind::Equal => 0u8,
                TokenKind::NotEqual => 1u8,
                TokenKind::Greater => 2u8,
                TokenKind::Less => 3u8,
                _ => {
                    return Err(
                        ParseError::UnexpectedToken {
                            expected: String::from_str("comparison operator (==, !=, >, <)"),
                            found: self.tokens[at].kind.duplicate(),
                            line: self.tokens[at].span.line,
                            column: self.tokens[at].span.column,
                        },
                    );
                },
            };
            let right = match self.parse_expression() {
                Ok(right) => right,
                Err(error) => {
                    return Err(error);
                },
            };
            if op == 0 {
                Ok(Condition::Equal(left, right))
            } else if op == 1 {
                Ok(Condition::NotEqual(left, right))
            } else if op == 2 {
                Ok(Condition::Greater(left, right))
            } else {
                Ok(Condition::Less(left, right))
            }
        } else {
            let current = self.current_span();
            Err(
                ParseError::SyntaxError {
                    line: current.line,
                    column: current.column,
                    message: String::from_str("Expected condition"),
                },
            )
        }
    }

    fn block_ends(&self) -> (ends: bool)
        requires
            self.wf(),
        ensures
            ends == grammar::block_ends(self.input(), self.position as int),
    {
        match self.peek_kind() {
            Some(TokenKind::While) => true,
            Some(TokenKind::If) => true,
            Some(TokenKind::Def) => true,
            Some(TokenKind::Newline) => match self.lookahead(1) {
                Some(next) => match &next.kind {
                    TokenKind::While => true,
                    TokenKind::If => true,
                    TokenKind::Def => true,
                    TokenKind::For => true,
                    _ => false,
                },
                None => false,
            },
            _ => false,
        }
    }

    fn parse_block(&mut self) -> (result: Result<Vec<Statement>, ParseError>)
        requires
            old(self).wf(),
        ensures
            final(self).wf(),
            final(self).tokens == old(self).tokens,
            agrees(
                value_of(result, |block: Vec<Statement>| block_view(block@)),
                error_of(result),
                final(self).position as int,
                grammar::parse_block(old(self).input(), old(self).position as int, Seq::empty()),
            ),
            result is Ok ==> old(self).position <= final(self).position,
        decreases old(self).tokens.len() - old(self).position, 3nat,
    {
        let mut body: Vec<Statement> = Vec::new();
        assert(block_view(body@) =~= Seq::empty());
        loop
            invariant_except_break
                grammar::parse_block(self.input(), self.position as int, block_view(body@))
                    == grammar::parse_block(
                    old(self).input(),
                    old(self).position as int,
                    Seq::empty(),
                ),
            invariant
                self.wf(),
                self.tokens == old(self).tokens,
                old(self).position <= self.position,
            ensures
                grammar::parse_block(old(self).input(), old(self).position as int, Seq::empty())
                    == Ok::<(Seq<StatementView>, int), ParseErrorView>(
                    (block_view(body@), self.position as int),
                ),
            decreases self.tokens.len() - self.position,
        {
            if self.is_at_end() || self.block_ends() {
                break;
            }
            if self.check_kind(TokenKind::Newline) {
                self.advance();
                continue;
            }
            let ghost seen = block_view(body@);
            match self.parse_statement() {
                Ok(Some(statement)) => {
                    body.push(statement);
                    assert(block_view(body@) =~= seen.push(statement@));
                },
                Ok(None) => {
                    break;
                },
                Err(error) => {
                    let message = error.to_string();
                    return Err(ParseError::SyntaxError { line: 1, column: 1, message });
                },
            }
        }
        Ok(body)
    }

    fn peek(&self) -> (token: Option<&Token>)
        requires
            self.wf(),
        ensures
            match token {
                Some(token) => grammar::token_at(self.input(), self.position as int) == Some(token@),
                None => grammar::token_at(self.input(), self.position as int) is None,
            },
    {
        if self.position < self.tokens.len() {
            Some(&self.tokens[self.position])
        } else {
            None
        }
    }

    /// Moves past the current token and returns its index; stays where it
    /// is behind the last token.
    fn advance(&mut self) -> (at: Option<usize>)
        requires
            old(self).wf(),
        ensures
            final(self).wf(),
            final(self).tokens == old(self).tokens,
            final(self).position == grammar::step(old(self).input(), old(self).position as int),
            match at {
                Some(at) => at == old(self).position && at < old(self).tokens.len()
                    && grammar::token_at(old(self).input(), old(self).position as int) == Some(
                    old(self).tokens@[at as int]@,
                ),
                None => grammar::token_at(old(self).input(), old(self).position as int) is None,
            },
    {
        if self.position < self.tokens.len() {
            let at = self.position;
            self.position += 1;
            Some(at)
        } else {
            None
        }
    }

    fn lookahead(&self, n: usize) -> (token: Option<&Token>)
        requires
            self.wf(),
        ensures
            match token {
                Some(token) => grammar::token_at(self.input(), self.position + n) == Some(token@),
                None => grammar::token_at(self.input(), self.position + n) is None,
            },
    {
        if n < self.tokens.len() - self.position {
            Some(&self.tokens[self.position + n])
        } else {
            None
        }
    }

    fn current_span(&self) -> (span: Span)
        requires
            self.wf(),
        ensures
            span == grammar::span_at(self.input(), self.position as int),
    {
        match self.peek() {
            Some(token) => token.span,
            None => Span { line: 1, column: 1, start: 0, end: 0 },
        }
    }

    fn current_line(&self) -> (line: usize)
        requires
            self.wf(),
        ensures
            line == grammar::span_at(self.input(), self.position as int).line,
    {
        self.current_span().line
    }

    fn current_column(&self) -> (column: usize)
        requires
            self.wf(),
        ensures
            column == grammar::span_at(self.input(), self.position as int).column,
    {
        self.current_span().column
    }

    fn create_span_from(&self, start_span: &Span) -> (span: Span)
        requires
            self.wf(),
        ensures
            span == grammar::span_from(self.input(), *start_span, self.position as int),
    {
        let end_span = self.current_span();
        Span {
            line: start_span.line,
            column: start_span.column,
            start: start_span.start,
            end: end_span.end,
        }
    }

    fn consume_newlines(&mut self)
        requires
            old(self).wf(),
        ensures
            final(self).wf(),
            final(self).tokens == old(self).tokens,
            final(self).position == grammar::consume_newlines(
                old(self).input(),
                old(self).position as int,
            ),
            old(self).position <= final(self).position,
    {
        while self.check_kind(TokenKind::Newline)
            invariant
                self.wf(),
                self.tokens == old(self).tokens,
                old(self).position <= self.position,
                grammar::consume_newlines(self.input(), self.position as int)
                    == grammar::consume_newlines(old(self).input(), old(self).position as int),
            decreases self.tokens.len() - self.position,
        {
            self.advance();
        }
    }
}

} // verus!
