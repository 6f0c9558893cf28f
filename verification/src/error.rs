//! The errors of the compiler and the text that describes each of them.

use vstd::prelude::*;
use vstd::string::StringExecFns;
use crate::parser::lexer::{TokenKind, TokenKindView};
use crate::text::{decimal, push_char, push_decimal, push_text};

verus! {

/// An error of the compiler as a whole.
#[derive(Debug)]
pub enum CompileError {
    /// The source is not a program.
    SyntaxError { line: usize, message: String },
    /// The source is not a sequence of tokens.
    LexerError { message: String },
    /// A variable does not name one of the registers `v0` to `vF`.
    UnknownRegister { name: String },
    /// A file could not be read or written.
    IoError { message: String },
    /// The program uses something that the backend cannot express.
    BackendError { message: String },
}

/// An error of the lexer.
#[derive(Debug)]
pub enum LexerError {
    /// A character that starts no token.
    UnexpectedChar { char: char, line: usize, column: usize },
    /// A character or string literal that is not closed.
    UnclosedCharLiteral { line: usize, column: usize },
    /// A number literal that is malformed or does not fit in sixteen bits.
    InvalidNumber { number: String, line: usize, column: usize },
    /// A backslash followed by something that is no escape.
    UnknownEscape { seq: char, line: usize, column: usize },
}

/// An error of the parser.
#[derive(Debug)]
pub enum ParseError {
    /// A construct that is not allowed where it stands.
    SyntaxError { line: usize, column: usize, message: String },
    /// A token other than the one that the grammar asks for.
    UnexpectedToken { expected: String, found: TokenKind, line: usize, column: usize },
    /// The tokens end where the grammar asks for more.
    UnexpectedEof { line: usize, column: usize },
}

/// What a `CompileError` stands for.
pub enum CompileErrorView {
    SyntaxError { line: usize, message: Seq<char> },
    LexerError { message: Seq<char> },
    UnknownRegister { name: Seq<char> },
    IoError { message: Seq<char> },
    BackendError { message: Seq<char> },
}

/// What a `LexerError` stands for.
pub enum LexerErrorView {
    UnexpectedChar { char: char, line: usize, column: usize },
    UnclosedCharLiteral { line: usize, column: usize },
    InvalidNumber { number: Seq<char>, line: usize, column: usize },
    UnknownEscape { seq: char, line: usize, column: usize },
}

/// What a `ParseError` stands for.
pub enum ParseErrorView {
    SyntaxError { line: usize, column: usize, message: Seq<char> },
    UnexpectedToken { expected: Seq<char>, found: TokenKindView, line: usize, column: usize },
    UnexpectedEof { line: usize, column: usize },
}

impl View for CompileError {
    type V = CompileErrorView;

    open spec fn view(&self) -> CompileErrorView {
        match self {
            CompileError::SyntaxError { line, message } => CompileErrorView::SyntaxError {
                line: *line,
                message: message@,
            },
            CompileError::LexerError { message } => CompileErrorView::LexerError { message: message@ },
            CompileError::UnknownRegister { name } => CompileErrorView::UnknownRegister { name: name@ },
            CompileError::IoError { message } => CompileErrorView::IoError { message: message@ },
            CompileError::BackendError { message } => CompileErrorView::BackendError {
                message: message@,
            },
        }
    }
}

impl View for LexerError {
    type V = LexerErrorView;

    open spec fn view(&self) -> LexerErrorView {
        match self {
            LexerError::UnexpectedChar { char, line, column } => LexerErrorView::UnexpectedChar {
                char: *char,
                line: *line,
                column: *column,
            },
            LexerError::UnclosedCharLiteral { line, column } => LexerErrorView::UnclosedCharLiteral {
                line: *line,
                column: *column,
            },
            LexerError::InvalidNumber { number, line, column } => LexerErrorView::InvalidNumber {
                number: number@,
                line: *line,
                column: *column,
            },
            LexerError::UnknownEscape { seq, line, column } => LexerErrorView::UnknownEscape {
                seq: *seq,
                line: *line,
                column: *column,
            },
        }
    }
}

impl View for ParseError {
    type V = ParseErrorView;

    open spec fn view(&self) -> ParseErrorView {
        match self {
            ParseError::SyntaxError { line, column, message } => ParseErrorView::SyntaxError {
                line: *line,
                column: *column,
                message: message@,
            },
            ParseError::UnexpectedToken { expected, found, line, column } => {
                ParseErrorView::UnexpectedToken {
                    expected: expected@,
                    found: found@,
                    line: *line,
                    column: *column,
                }
            },
            ParseError::UnexpectedEof { line, column } => ParseErrorView::UnexpectedEof {
                line: *line,
                column: *column,
            },
        }
    }
}

/// The text that the standard `Debug` formatting gives for a token kind.
pub uninterp spec fn kind_debug(kind: TokenKindView) -> Seq<char>;

/// Formats a token kind for a diagnostic.
///
/// Wraps the standard library's `{:?}` formatting of the derived `Debug` of
/// `TokenKind`. The text depends on nothing but the kind and what it holds;
/// the contract gives it a name and claims no more.
#[verifier::external_body]
pub(crate) fn debug_kind(kind: &TokenKind) -> (text: String)
    ensures
        text@ == kind_debug(kind@),
{
    format!("{:?}", kind)
}

/// `" at LINE:COLUMN"`, the way every diagnostic names a place.
pub open spec fn at_place(line: usize, column: usize) -> Seq<char> {
    " at "@ + decimal(line as nat) + ":"@ + decimal(column as nat)
}

/// Appends `" at LINE:COLUMN"` to `text`.
fn push_place(text: &mut String, line: usize, column: usize)
    ensures
        final(text)@ == old(text)@ + at_place(line, column),
{
    push_text(text, " at ");
    push_decimal(text, line);
    push_text(text, ":");
    push_decimal(text, column);
    assert(text@ =~= old(text)@ + at_place(line, column));
}

/// The text that describes a lexer error.
pub open spec fn lexer_error_text(error: LexerErrorView) -> Seq<char> {
    match error {
        LexerErrorView::UnexpectedChar { char, line, column } => "Unexpected character '"@.push(
            char,
        ) + "'"@ + at_place(line, column),
        LexerErrorView::UnclosedCharLiteral { line, column } => "Unclosed character literal"@
            + at_place(line, column),
        LexerErrorView::InvalidNumber { number, line, column } => "Invalid number format '"@ + number
            + "'"@ + at_place(line, column),
        LexerErrorView::UnknownEscape { seq, line, column } => "Unknown escape sequence '\\"@.push(
            seq,
        ) + "'"@ + at_place(line, column),
    }
}

/// The text that describes a parse error.
pub open spec fn parse_error_text(error: ParseErrorView) -> Seq<char> {
    match error {
        ParseErrorView::SyntaxError { line, column, message } => "Syntax error"@ + at_place(
            line,
            column,
        ) + ": "@ + message,
        ParseErrorView::UnexpectedToken { expected, found, line, column } => "Unexpected token "@
            + kind_debug(found) + at_place(line, column) + ", expected "@ + expected,
        ParseErrorView::UnexpectedEof { line, column } => "Unexpected end of file"@ + at_place(
            line,
            column,
        ),
    }
}

/// The text that describes a compile error.
pub open spec fn compile_error_text(error: CompileErrorView) -> Seq<char> {
    match error {
        CompileErrorView::SyntaxError { line, message } => "Syntax error at line "@ + decimal(
            line as nat,
        ) + ": "@ + message,
        CompileErrorView::LexerError { message } => "Lexer error: "@ + message,
        CompileErrorView::UnknownRegister { name } => "Unknown register: "@ + name,
        CompileErrorView::IoError { message } => "IO error: "@ + message,
        CompileErrorView::BackendError { message } => "Backend compiling error"@,
    }
}

/// The compile error that a lexer error turns into.
pub open spec fn from_lexer_error(error: LexerErrorView) -> CompileErrorView {
    CompileErrorView::LexerError { message: lexer_error_text(error) }
}

/// The compile error that a parse error turns into. The line is always one.
pub open spec fn from_parse_error(error: ParseErrorView) -> CompileErrorView {
    CompileErrorView::SyntaxError { line: 1, message: parse_error_text(error) }
}

impl LexerError {
    /// The text that describes the error.
    pub fn to_string(&self) -> (text: String)
        ensures
            text@ == lexer_error_text(self@),
    {
        match self {
            LexerError::UnexpectedChar { char, line, column } => {
                let mut text = String::from_str("Unexpected character '");
                push_char(&mut text, *char);
                push_text(&mut text, "'");
                push_place(&mut text, *line, *column);
                text
            },
            LexerError::UnclosedCharLiteral { line, column } => {
                let mut text = String::from_str("Unclosed character literal");
                push_place(&mut text, *line, *column);
                text
            },
            LexerError::InvalidNumber { number, line, column } => {
                let mut text = String::from_str("Invalid number format '");
                push_text(&mut text, number.as_str());
                push_text(&mut text, "'");
                push_place(&mut text, *line, *column);
                text
            },
            LexerError::UnknownEscape { seq, line, column } => {
                let mut text = String::from_str("Unknown escape sequence '\\");
                push_char(&mut text, *seq);
                push_text(&mut text, "'");
                push_place(&mut text, *line, *column);
                text
            },
        }
    }
}

impl ParseError {
    /// The text that describes the error.
    pub fn to_string(&self) -> (text: String)
        ensures
            text@ == parse_error_text(self@),
    {
        match self {
            ParseError::SyntaxError { line, column, message } => {
                let mut text = String::from_str("Syntax error");
                push_place(&mut text, *line, *column);
                push_text(&mut text, ": ");
                push_text(&mut text, message.as_str());
                text
            },
            ParseError::UnexpectedToken { expected, found, line, column } => {
                let mut text = String::from_str("Unexpected token ");
                let shown = debug_kind(found);
                push_text(&mut text, shown.as_str());
                push_place(&mut text, *line, *column);
                push_text(&mut text, ", expected ");
                push_text(&mut text, expected.as_str());
                text
            },
            ParseError::UnexpectedEof { line, column } => {
                let mut text = String::from_str("Unexpected end of file");
                push_place(&mut text, *line, *column);
                text
            },
        }
    }
}

impl CompileError {
    /// The text that describes the error.
    pub fn to_string(&self) -> (text: String)
        ensures
            text@ == compile_error_text(self@),
    {
        match self {
            CompileError::SyntaxError { line, message } => {
                let mut text = String::from_str("Syntax error at line ");
                push_decimal(&mut text, *line);
                push_text(&mut text, ": ");
                push_text(&mut text, message.as_str());
                text
            },
            CompileError::LexerError { message } => {
                let mut text = String::from_str("Lexer error: ");
                push_text(&mut text, message.as_str());
                text
            },
            CompileError::UnknownRegister { name } => {
                let mut text = String::from_str("Unknown register: ");
                push_text(&mut text, name.as_str());
                text
            },
            CompileError::IoError { message } => {
                let mut text = String::from_str("IO error: ");
                push_text(&mut text, message.as_str());
                text
            },
            CompileError::BackendError { message } => String::from_str("Backend compiling error"),
        }
    }

    /// The compile error that reports a lexer error.
    pub fn from_lexer_error(error: &LexerError) -> (converted: CompileError)
        ensures
            converted@ == from_lexer_error(error@),
    {
        CompileError::LexerError { message: error.to_string() }
    }

    /// The compile error that reports a parse error.
    pub fn from_parse_error(error: &ParseError) -> (converted: CompileError)
        ensures
            converted@ == from_parse_error(error@),
    {
        CompileError::SyntaxError { line: 1, message: error.to_string() }
    }
}

} // verus!
