//! The lexer: from characters to tokens.
//!
//! The meaning of the lexer is given by spec functions over the sequence of
//! characters and a cursor; the executable lexer is proved to compute them.

use vstd::prelude::*;
use crate::span::Span;
use crate::error::{from_lexer_error, CompileError, CompileErrorView, LexerError, LexerErrorView};
use crate::text::{char_is_digit, chars_of, digit_of, digit_value, is_digit, spells, string_of};

verus! {

/// A token and its place in the source.
#[derive(Debug, PartialEq)]
pub struct Token {
    pub kind: TokenKind,
    pub span: Span,
}

/// The kinds of token.
#[derive(Debug, PartialEq)]
pub enum TokenKind {
    If,
    Else,
    While,
    For,
    Def,
    Return,
    True,
    False,
    Pass,
    /// The keyword `None`.
    NoneValue,
    Not,
    In,
    /// `=`
    Assign,
    /// `+`
    Plus,
    /// `-`
    Minus,
    /// `==`
    Equal,
    /// `!=`
    NotEqual,
    /// `>`
    Greater,
    /// `<`
    Less,
    /// `*`
    Star,
    /// `/`
    Slash,
    /// `(`
    LParen,
    /// `)`
    RParen,
    /// `:`
    Colon,
    /// `,`
    Comma,
    /// `"`
    Qoute,
    /// `'`
    SQoute,
    Identifier(String),
    Number(u16),
    CharLiteral(char),
    StringLiteral(String),
    Newline,
    Indent,
    Dedent,
    Eof,
}

/// What a `TokenKind` stands for: the same kind with text as a sequence of
/// characters.
pub enum TokenKindView {
    If,
    Else,
    While,
    For,
    Def,
    Return,
    True,
    False,
    Pass,
    NoneValue,
    Not,
    In,
    Assign,
    Plus,
    Minus,
    Equal,
    NotEqual,
    Greater,
    Less,
    Star,
    Slash,
    LParen,
    RParen,
    Colon,
    Comma,
    Qoute,
    SQoute,
    Identifier(Seq<char>),
    Number(u16),
    CharLiteral(char),
    StringLiteral(Seq<char>),
    Newline,
    Indent,
    Dedent,
    Eof,
}

/// What a `Token` stands for.
pub struct TokenView {
    pub kind: TokenKindView,
    pub span: Span,
}

impl View for TokenKind {
    type V = TokenKindView;

    open spec fn view(&self) -> TokenKindView {
        match self {
            TokenKind::If => TokenKindView::If,
            TokenKind::Else => TokenKindView::Else,
            TokenKind::While => TokenKindView::While,
            TokenKind::For => TokenKindView::For,
            TokenKind::Def => TokenKindView::Def,
            TokenKind::Return => TokenKindView::Return,
            TokenKind::True => TokenKindView::True,
            TokenKind::False => TokenKindView::False,
            TokenKind::Pass => TokenKindView::Pass,
            TokenKind::NoneValue => TokenKindView::NoneValue,
            TokenKind::Not => TokenKindView::Not,
            TokenKind::In => TokenKindView::In,
            TokenKind::Assign => TokenKindView::Assign,
            TokenKind::Plus => TokenKindView::Plus,
            TokenKind::Minus => TokenKindView::Minus,
            TokenKind::Equal => TokenKindView::Equal,
            TokenKind::NotEqual => TokenKindView::NotEqual,
            TokenKind::Greater => TokenKindView::Greater,
            TokenKind::Less => TokenKindView::Less,
            TokenKind::Star => TokenKindView::Star,
            TokenKind::Slash => TokenKindView::Slash,
            TokenKind::LParen => TokenKindView::LParen,
            TokenKind::RParen => TokenKindView::RParen,
            TokenKind::Colon => TokenKindView::Colon,
            TokenKind::Comma => TokenKindView::Comma,
            TokenKind::Qoute => TokenKindView::Qoute,
            TokenKind::SQoute => TokenKindView::SQoute,
            TokenKind::Identifier(name) => TokenKindView::Identifier(name@),
            TokenKind::Number(n) => TokenKindView::Number(*n),
            TokenKind::CharLiteral(c) => TokenKindView::CharLiteral(*c),
            TokenKind::StringLiteral(text) => TokenKindView::StringLiteral(text@),
            TokenKind::Newline => TokenKindView::Newline,
            TokenKind::Indent => TokenKindView::Indent,
            TokenKind::Dedent => TokenKindView::Dedent,
            TokenKind::Eof => TokenKindView::Eof,
        }
    }
}

impl View for Token {
    type V = TokenView;

    open spec fn view(&self) -> TokenView {
        TokenView { kind: self.kind@, span: self.span }
    }
}

/// What a sequence of tokens stands for.
pub open spec fn tokens_view(tokens: Seq<Token>) -> Seq<TokenView> {
    tokens.map_values(|token: Token| token@)
}

impl Clone for TokenKind {
    /// A copy that stands for the same kind.
    fn clone(&self) -> (copy: TokenKind)
        ensures
            copy@ == self@,
    {
        self.duplicate()
    }
}

impl Clone for Token {
    /// A copy that stands for the same token.
    fn clone(&self) -> (copy: Token)
        ensures
            copy@ == self@,
    {
        Token { kind: self.kind.duplicate(), span: self.span }
    }
}

impl TokenKind {
    /// A copy that stands for the same kind.
    pub fn duplicate(&self) -> (copy: TokenKind)
        ensures
            copy@ == self@,
    {
        match self {
            TokenKind::If => TokenKind::If,
            TokenKind::Else => TokenKind::Else,
            TokenKind::While => TokenKind::While,
            TokenKind::For => TokenKind::For,
            TokenKind::Def => TokenKind::Def,
            TokenKind::Return => TokenKind::Return,
            TokenKind::True => TokenKind::True,
            TokenKind::False => TokenKind::False,
            TokenKind::Pass => TokenKind::Pass,
            TokenKind::NoneValue => TokenKind::NoneValue,
            TokenKind::Not => TokenKind::Not,
            TokenKind::In => TokenKind::In,
            TokenKind::Assign => TokenKind::Assign,
            TokenKind::Plus => TokenKind::Plus,
            TokenKind::Minus => TokenKind::Minus,
            TokenKind::Equal => TokenKind::Equal,
            TokenKind::NotEqual => TokenKind::NotEqual,
            TokenKind::Greater => TokenKind::Greater,
            TokenKind::Less => TokenKind::Less,
            TokenKind::Star => TokenKind::Star,
            TokenKind::Slash => TokenKind::Slash,
            TokenKind::LParen => TokenKind::LParen,
            TokenKind::RParen => TokenKind::RParen,
            TokenKind::Colon => TokenKind::Colon,
            TokenKind::Comma => TokenKind::Comma,
            TokenKind::Qoute => TokenKind::Qoute,
            TokenKind::SQoute => TokenKind::SQoute,
            TokenKind::Identifier(name) => TokenKind::Identifier(name.clone()),
            TokenKind::Number(n) => TokenKind::Number(*n),
            TokenKind::CharLiteral(c) => TokenKind::CharLiteral(*c),
            TokenKind::StringLiteral(text) => TokenKind::StringLiteral(text.clone()),
            TokenKind::Newline => TokenKind::Newline,
            TokenKind::Indent => TokenKind::Indent,
            TokenKind::Dedent => TokenKind::Dedent,
            TokenKind::Eof => TokenKind::Eof,
        }
    }

    /// Whether two kinds are the same, texts and numbers included.
    pub fn same(&self, other: &TokenKind) -> (same: bool)
        ensures
            same == (self@ == other@),
    {
        match (self, other) {
            (TokenKind::If, TokenKind::If) => true,
            (TokenKind::Else, TokenKind::Else) => true,
            (TokenKind::While, TokenKind::While) => true,
            (TokenKind::For, TokenKind::For) => true,
            (TokenKind::Def, TokenKind::Def) => true,
            (TokenKind::Return, TokenKind::Return) => true,
            (TokenKind::True, TokenKind::True) => true,
            (TokenKind::False, TokenKind::False) => true,
            (TokenKind::Pass, TokenKind::Pass) => true,
            (TokenKind::NoneValue, TokenKind::NoneValue) => true,
            (TokenKind::Not, TokenKind::Not) => true,
            (TokenKind::In, TokenKind::In) => true,
            (TokenKind::Assign, TokenKind::Assign) => true,
            (TokenKind::Plus, TokenKind::Plus) => true,
            (TokenKind::Minus, TokenKind::Minus) => true,
            (TokenKind::Equal, TokenKind::Equal) => true,
            (TokenKind::NotEqual, TokenKind::NotEqual) => true,
            (TokenKind::Greater, TokenKind::Greater) => true,
            (TokenKind::Less, TokenKind::Less) => true,
            (TokenKind::Star, TokenKind::Star) => true,
            (TokenKind::Slash, TokenKind::Slash) => true,
            (TokenKind::LParen, TokenKind::LParen) => true,
            (TokenKind::RParen, TokenKind::RParen) => true,
            (TokenKind::Colon, TokenKind::Colon) => true,
            (TokenKind::Comma, TokenKind::Comma) => true,
            (TokenKind::Qoute, TokenKind::Qoute) => true,
            (TokenKind::SQoute, TokenKind::SQoute) => true,
            (TokenKind::Identifier(a), TokenKind::Identifier(b)) => *a == *b,
            (TokenKind::Number(a), TokenKind::Number(b)) => *a == *b,
            (TokenKind::CharLiteral(a), TokenKind::CharLiteral(b)) => *a == *b,
            (TokenKind::StringLiteral(a), TokenKind::StringLiteral(b)) => *a == *b,
            (TokenKind::Newline, TokenKind::Newline) => true,
            (TokenKind::Indent, TokenKind::Indent) => true,
            (TokenKind::Dedent, TokenKind::Dedent) => true,
            (TokenKind::Eof, TokenKind::Eof) => true,
            _ => false,
        }
    }
}


/// Where the lexer stands in the source.
pub struct Cursor {
    /// The number of characters consumed.
    pub pos: int,
    /// The line of the next character, counted from one.
    pub line: usize,
    /// The column of the next character, counted from one.
    pub column: usize,
}

impl Cursor {
    /// The cursor at the start of a text.
    pub open spec fn start() -> Cursor {
        Cursor { pos: 0, line: 1, column: 1 }
    }
}

/// One more than `n`, except that the largest number stays what it is.
pub open spec fn succ(n: usize) -> usize {
    if n < usize::MAX {
        (n + 1) as usize
    } else {
        n
    }
}

/// The next character, if the text has not ended.
pub open spec fn peek(chars: Seq<char>, cur: Cursor) -> Option<char> {
    if 0 <= cur.pos < chars.len() {
        Some(chars[cur.pos])
    } else {
        None
    }
}

/// The cursor after the next character has been consumed: a line feed
/// starts a new line, any other character moves to the next column. At the
/// end of the text the cursor stays where it is.
pub open spec fn advance(chars: Seq<char>, cur: Cursor) -> Cursor {
    if 0 <= cur.pos < chars.len() {
        if chars[cur.pos] == '\n' {
            Cursor { pos: cur.pos + 1, line: succ(cur.line), column: 1 }
        } else {
            Cursor { pos: cur.pos + 1, line: cur.line, column: succ(cur.column) }
        }
    } else {
        cur
    }
}

/// The span from where a token started to where the lexer stands now.
pub open spec fn span_between(from: Cursor, to: Cursor) -> Span {
    Span { line: from.line, column: from.column, start: from.pos as usize, end: to.pos as usize }
}

/// Whether `c` has the Unicode property `White_Space`.
pub open spec fn is_whitespace(c: char) -> bool {
    let n = c as u32;
    ||| 0x09 <= n <= 0x0D
    ||| n == 0x20
    ||| n == 0x85
    ||| n == 0xA0
    ||| n == 0x1680
    ||| 0x2000 <= n <= 0x200A
    ||| n == 0x2028
    ||| n == 0x2029
    ||| n == 0x202F
    ||| n == 0x205F
    ||| n == 0x3000
}

/// Whether `c` is an ASCII letter.
pub open spec fn is_letter(c: char) -> bool {
    'a' <= c <= 'z' || 'A' <= c <= 'Z'
}

/// Whether `c` is a hexadecimal digit in either case.
pub open spec fn is_hex_digit(c: char) -> bool {
    is_digit(c) || 'a' <= c <= 'f' || 'A' <= c <= 'F'
}

/// Whether `c` may stand in a number literal: a hexadecimal digit, the
/// letters of the prefixes `0x` and `0b` in either case, or an underscore.
pub open spec fn is_number_char(c: char) -> bool {
    is_hex_digit(c) || c == 'x' || c == 'X' || c == 'b' || c == 'B' || c == '_'
}

/// Whether `c` may stand in an identifier: an ASCII letter, a digit or an
/// underscore.
pub open spec fn is_ident_char(c: char) -> bool {
    is_letter(c) || is_digit(c) || c == '_'
}

/// The cursor after blanks have been skipped: white space other than the
/// line feed.
pub open spec fn skip_whitespace(chars: Seq<char>, cur: Cursor) -> Cursor
    decreases chars.len() - cur.pos,
{
    if 0 <= cur.pos < chars.len() && is_whitespace(chars[cur.pos]) && chars[cur.pos] != '\n' {
        skip_whitespace(chars, advance(chars, cur))
    } else {
        cur
    }
}

/// The cursor after the rest of the line has been skipped; the line feed
/// itself stays.
pub open spec fn skip_comment(chars: Seq<char>, cur: Cursor) -> Cursor
    decreases chars.len() - cur.pos,
{
    if 0 <= cur.pos < chars.len() && chars[cur.pos] != '\n' {
        skip_comment(chars, advance(chars, cur))
    } else {
        cur
    }
}

/// The run of number characters at the cursor: where it ends, and its
/// characters without the underscores, appended to `acc`.
pub open spec fn scan_number(chars: Seq<char>, cur: Cursor, acc: Seq<char>) -> (Cursor, Seq<char>)
    decreases chars.len() - cur.pos,
{
    if 0 <= cur.pos < chars.len() && is_number_char(chars[cur.pos]) {
        scan_number(
            chars,
            advance(chars, cur),
            if chars[cur.pos] == '_' {
                acc
            } else {
                acc.push(chars[cur.pos])
            },
        )
    } else {
        (cur, acc)
    }
}

/// The run of identifier characters at the cursor: where it ends, and its
/// characters appended to `acc`.
pub open spec fn scan_identifier(chars: Seq<char>, cur: Cursor, acc: Seq<char>) -> (Cursor, Seq<char>)
    decreases chars.len() - cur.pos,
{
    if 0 <= cur.pos < chars.len() && is_ident_char(chars[cur.pos]) {
        scan_identifier(chars, advance(chars, cur), acc.push(chars[cur.pos]))
    } else {
        (cur, acc)
    }
}

/// The number that a sequence of digits denotes in the given radix, if all
/// of them are digits of that radix. No digits denote zero.
pub open spec fn digits_value(digits: Seq<char>, radix: int) -> Option<int>
    decreases digits.len(),
{
    if digits.len() == 0 {
        Some(0)
    } else {
        match (digits_value(digits.drop_last(), radix), digit_value(digits.last(), radix)) {
            (Some(high), Some(low)) => Some(high * radix + low),
            _ => None,
        }
    }
}

/// The sixteen-bit number that a sequence of digits denotes: there has to
/// be at least one digit, and the number has to fit.
pub open spec fn parse_u16(digits: Seq<char>, radix: int) -> Option<u16> {
    if digits.len() == 0 {
        None
    } else {
        match digits_value(digits, radix) {
            Some(value) => if value <= 0xFFFF {
                Some(value as u16)
            } else {
                None
            },
            None => None,
        }
    }
}

/// The value of a number literal, underscores removed: hexadecimal after
/// `0x`, binary after `0b`, decimal otherwise.
pub open spec fn number_value(literal: Seq<char>) -> Option<u16> {
    if literal.len() >= 2 && literal[0] == '0' && literal[1] == 'x' {
        parse_u16(literal.subrange(2, literal.len() as int), 16)
    } else if literal.len() >= 2 && literal[0] == '0' && literal[1] == 'b' {
        parse_u16(literal.subrange(2, literal.len() as int), 2)
    } else {
        parse_u16(literal, 10)
    }
}

/// What reading one token gives: the token and the cursor behind it, or the
/// error that the text runs into.
pub type Lexed<T> = Result<(T, Cursor), LexerErrorView>;

/// The number literal at the cursor.
pub open spec fn read_number(chars: Seq<char>, cur: Cursor) -> Lexed<TokenView> {
    let (end, literal) = scan_number(chars, cur, Seq::empty());
    match number_value(literal) {
        Some(value) => Ok(
            (TokenView { kind: TokenKindView::Number(value), span: span_between(cur, end) }, end),
        ),
        None => Err(
            LexerErrorView::InvalidNumber { number: literal, line: cur.line, column: cur.column },
        ),
    }
}

/// The kind of a word: one of the keywords, or an identifier.
pub open spec fn word_kind(word: Seq<char>) -> TokenKindView {
    if word == "if"@ {
        TokenKindView::If
    } else if word == "else"@ {
        TokenKindView::Else
    } else if word == "while"@ {
        TokenKindView::While
    } else if word == "for"@ {
        TokenKindView::For
    } else if word == "def"@ {
        TokenKindView::Def
    } else if word == "return"@ {
        TokenKindView::Return
    } else if word == "True"@ {
        TokenKindView::True
    } else if word == "False"@ {
        TokenKindView::False
    } else if word == "None"@ {
        TokenKindView::NoneValue
    } else if word == "pass"@ {
        TokenKindView::Pass
    } else if word == "in"@ {
        TokenKindView::In
    } else {
        TokenKindView::Identifier(word)
    }
}

/// The keyword or identifier at the cursor.
pub open spec fn read_identifier(chars: Seq<char>, cur: Cursor) -> (TokenView, Cursor) {
    let (end, word) = scan_identifier(chars, cur, Seq::empty());
    (TokenView { kind: word_kind(word), span: span_between(cur, end) }, end)
}

/// Up to two hexadecimal digits at the cursor: where they end, and the
/// digits appended to `acc`.
pub open spec fn scan_hex(chars: Seq<char>, cur: Cursor, acc: Seq<char>, left: nat) -> (Cursor, Seq<char>)
    decreases left,
{
    if left > 0 && 0 <= cur.pos < chars.len() && is_hex_digit(chars[cur.pos]) {
        scan_hex(chars, advance(chars, cur), acc.push(chars[cur.pos]), (left - 1) as nat)
    } else {
        (cur, acc)
    }
}

/// The character that `\xHH` denotes; the cursor stands behind the `x`.
pub open spec fn read_hex_escape(chars: Seq<char>, cur: Cursor) -> Lexed<char> {
    let (end, digits) = scan_hex(chars, cur, Seq::empty(), 2);
    if digits.len() == 2 {
        match parse_u16(digits, 16) {
            Some(value) => Ok(((value as u8) as char, end)),
            None => Err(LexerErrorView::UnknownEscape { seq: 'x', line: cur.line, column: cur.column }),
        }
    } else {
        Err(LexerErrorView::UnknownEscape { seq: 'x', line: cur.line, column: cur.column })
    }
}

/// The character that an escape sequence denotes; the cursor stands behind
/// the backslash.
pub open spec fn read_escape_sequence(chars: Seq<char>, cur: Cursor) -> Lexed<char> {
    let next = advance(chars, cur);
    match peek(chars, cur) {
        Some(c) => if c == 'n' {
            Ok(('\n', next))
        } else if c == 't' {
            Ok(('\t', next))
        } else if c == 'r' {
            Ok(('\r', next))
        } else if c == '\\' {
            Ok(('\\', next))
        } else if c == '\'' {
            Ok(('\'', next))
        } else if c == '0' {
            Ok(('\0', next))
        } else if c == 'x' {
            read_hex_escape(chars, next)
        } else {
            Err(LexerErrorView::UnknownEscape { seq: c, line: cur.line, column: cur.column })
        },
        None => Err(LexerErrorView::UnclosedCharLiteral { line: cur.line, column: cur.column }),
    }
}

/// The character literal at the cursor, which stands on the opening quote.
pub open spec fn read_char_literal(chars: Seq<char>, cur: Cursor) -> Lexed<TokenView> {
    let unclosed = LexerErrorView::UnclosedCharLiteral { line: cur.line, column: cur.column };
    let inside = advance(chars, cur);
    let body: Lexed<char> = match peek(chars, inside) {
        Some(c) => if c == '\\' {
            read_escape_sequence(chars, advance(chars, inside))
        } else if c == '\'' {
            Err(unclosed)
        } else {
            Ok((c, advance(chars, inside)))
        },
        None => Err(unclosed),
    };
    match body {
        Ok((c, closing)) => if peek(chars, closing) == Some('\'') {
            let end = advance(chars, closing);
            Ok((TokenView { kind: TokenKindView::CharLiteral(c), span: span_between(cur, end) }, end))
        } else {
            Err(unclosed)
        },
        Err(error) => Err(error),
    }
}

/// The rest of a string literal: the cursor stands inside the quotes and
/// `acc` holds what has been read. The literal ends at the closing quote or,
/// unclosed, at the end of the text; a line feed inside it is an error
/// reported at `opened`, where the literal began.
pub open spec fn scan_string(chars: Seq<char>, cur: Cursor, acc: Seq<char>, opened: Cursor) -> Lexed<
    Seq<char>,
>
    decreases chars.len() - cur.pos,
{
    if cur.pos < 0 || cur.pos >= chars.len() {
        Ok((acc, cur))
    } else {
        let c = chars[cur.pos];
        if c == '"' {
            Ok((acc, advance(chars, cur)))
        } else if c == '\\' {
            match read_escape_sequence(chars, advance(chars, cur)) {
                Ok((escaped, next)) => if cur.pos < next.pos <= chars.len() {
                    scan_string(chars, next, acc.push(escaped), opened)
                } else {
                    Ok((acc, cur))
                },
                Err(error) => Err(error),
            }
        } else if c == '\n' {
            Err(LexerErrorView::UnclosedCharLiteral { line: opened.line, column: opened.column })
        } else {
            scan_string(chars, advance(chars, cur), acc.push(c), opened)
        }
    }
}

/// The string literal at the cursor, which stands on the opening quote.
pub open spec fn read_string_literal(chars: Seq<char>, cur: Cursor) -> Lexed<TokenView> {
    match scan_string(chars, advance(chars, cur), Seq::empty(), cur) {
        Ok((text, end)) => Ok(
            (TokenView { kind: TokenKindView::StringLiteral(text), span: span_between(cur, end) }, end),
        ),
        Err(error) => Err(error),
    }
}

/// The token of one character at the cursor.
pub open spec fn single_char_token(chars: Seq<char>, cur: Cursor, kind: TokenKindView) -> (
    TokenView,
    Cursor,
) {
    let end = advance(chars, cur);
    (TokenView { kind, span: span_between(cur, end) }, end)
}

/// The token at the cursor that is `double` if the character after the
/// next one is `second`, and `single` otherwise.
pub open spec fn read_double_char(
    chars: Seq<char>,
    cur: Cursor,
    second: char,
    single: TokenKindView,
    double: TokenKindView,
) -> (TokenView, Cursor) {
    let after_first = advance(chars, cur);
    if peek(chars, after_first) == Some(second) {
        let end = advance(chars, after_first);
        (TokenView { kind: double, span: span_between(cur, end) }, end)
    } else {
        (TokenView { kind: single, span: span_between(cur, after_first) }, after_first)
    }
}

/// The token for a line feed at the cursor.
pub open spec fn newline_token(cur: Cursor) -> TokenView {
    TokenView {
        kind: TokenKindView::Newline,
        span: Span {
            line: cur.line,
            column: cur.column,
            start: cur.pos as usize,
            end: (cur.pos + 1) as usize,
        },
    }
}

/// The token that ends every token sequence.
pub open spec fn eof_token(cur: Cursor) -> TokenView {
    TokenView {
        kind: TokenKindView::Eof,
        span: Span { line: cur.line, column: cur.column, start: cur.pos as usize, end: cur.pos as usize },
    }
}

/// The kind of the operator or punctuation mark that `c` is on its own.
pub open spec fn punctuation(c: char) -> Option<TokenKindView> {
    if c == '+' {
        Some(TokenKindView::Plus)
    } else if c == '-' {
        Some(TokenKindView::Minus)
    } else if c == '*' {
        Some(TokenKindView::Star)
    } else if c == '/' {
        Some(TokenKindView::Slash)
    } else if c == '>' {
        Some(TokenKindView::Greater)
    } else if c == '<' {
        Some(TokenKindView::Less)
    } else if c == '(' {
        Some(TokenKindView::LParen)
    } else if c == ')' {
        Some(TokenKindView::RParen)
    } else if c == ':' {
        Some(TokenKindView::Colon)
    } else if c == ',' {
        Some(TokenKindView::Comma)
    } else {
        None
    }
}

/// One step of the lexer at a cursor that is not at the end of the text:
/// the token that starts there, or nothing for blanks and comments, and the
/// cursor behind it.
pub open spec fn next_token(chars: Seq<char>, cur: Cursor) -> Lexed<Option<TokenView>> {
    let c = chars[cur.pos];
    if c == ' ' || c == '\t' || c == '\r' {
        Ok((None, skip_whitespace(chars, cur)))
    } else if c == '\n' {
        Ok((Some(newline_token(cur)), advance(chars, cur)))
    } else if is_digit(c) {
        match read_number(chars, cur) {
            Ok((token, next)) => Ok((Some(token), next)),
            Err(error) => Err(error),
        }
    } else if is_letter(c) || c == '_' {
        let (token, next) = read_identifier(chars, cur);
        Ok((Some(token), next))
    } else if c == '\'' {
        match read_char_literal(chars, cur) {
            Ok((token, next)) => Ok((Some(token), next)),
            Err(error) => Err(error),
        }
    } else if c == '"' {
        match read_string_literal(chars, cur) {
            Ok((token, next)) => Ok((Some(token), next)),
            Err(error) => Err(error),
        }
    } else if c == '=' {
        let (token, next) = read_double_char(
            chars,
            cur,
            '=',
            TokenKindView::Assign,
            TokenKindView::Equal,
        );
        Ok((Some(token), next))
    } else if c == '!' {
        let (token, next) = read_double_char(
            chars,
            cur,
            '=',
            TokenKindView::Not,
            TokenKindView::NotEqual,
        );
        Ok((Some(token), next))
    } else if c == '#' {
        Ok((None, skip_comment(chars, cur)))
    } else {
        match punctuation(c) {
            Some(kind) => {
                let (token, next) = single_char_token(chars, cur, kind);
                Ok((Some(token), next))
            },
            None => Err(
                LexerErrorView::UnexpectedChar { char: c, line: cur.line, column: cur.column },
            ),
        }
    }
}

/// The tokens of the text from the cursor on, appended to `acc` and closed
/// by the end-of-file token; or the first error.
pub open spec fn lex(chars: Seq<char>, cur: Cursor, acc: Seq<TokenView>) -> Result<
    Seq<TokenView>,
    LexerErrorView,
>
    decreases chars.len() - cur.pos,
{
    if cur.pos < 0 || cur.pos >= chars.len() {
        Ok(acc.push(eof_token(cur)))
    } else {
        match next_token(chars, cur) {
            Ok((token, next)) => if cur.pos < next.pos <= chars.len() {
                lex(
                    chars,
                    next,
                    match token {
                        Some(token) => acc.push(token),
                        None => acc,
                    },
                )
            } else {
                Ok(acc)
            },
            Err(error) => Err(error),
        }
    }
}

/// The tokens of a whole text, or the first lexical error in it.
pub open spec fn tokens_of(source: Seq<char>) -> Result<Seq<TokenView>, LexerErrorView> {
    lex(source, Cursor::start(), Seq::empty())
}


/// Whether the result of reading a token, and the place where the lexer
/// stands afterwards, are what the specification gives.
pub open spec fn lexed_token(
    result: Result<Token, LexerError>,
    end: Cursor,
    expected: Lexed<TokenView>,
) -> bool {
    match expected {
        Ok((token, next)) => result matches Ok(got) && got@ == token && end == next,
        Err(error) => result matches Err(got) && got@ == error,
    }
}

/// Whether the result of reading a character, and the place where the lexer
/// stands afterwards, are what the specification gives.
pub open spec fn lexed_char(result: Result<char, LexerError>, end: Cursor, expected: Lexed<char>) -> bool {
    match expected {
        Ok((c, next)) => result matches Ok(got) && got == c && end == next,
        Err(error) => result matches Err(got) && got@ == error,
    }
}

/// What the result of lexing a whole text stands for.
pub open spec fn lexed_view(result: Result<Vec<Token>, LexerError>) -> Result<
    Seq<TokenView>,
    LexerErrorView,
> {
    match result {
        Ok(tokens) => Ok(tokens_view(tokens@)),
        Err(error) => Err(error@),
    }
}

/// Skipping blanks stays within the text and never moves back.
pub proof fn lemma_skip_whitespace_bounds(chars: Seq<char>, cur: Cursor)
    requires
        0 <= cur.pos <= chars.len(),
    ensures
        cur.pos <= skip_whitespace(chars, cur).pos <= chars.len(),
    decreases chars.len() - cur.pos,
{
    if cur.pos < chars.len() && is_whitespace(chars[cur.pos]) && chars[cur.pos] != '\n' {
        lemma_skip_whitespace_bounds(chars, advance(chars, cur));
    }
}

/// Skipping a comment stays within the text and never moves back.
pub proof fn lemma_skip_comment_bounds(chars: Seq<char>, cur: Cursor)
    requires
        0 <= cur.pos <= chars.len(),
    ensures
        cur.pos <= skip_comment(chars, cur).pos <= chars.len(),
    decreases chars.len() - cur.pos,
{
    if cur.pos < chars.len() && chars[cur.pos] != '\n' {
        lemma_skip_comment_bounds(chars, advance(chars, cur));
    }
}

/// Scanning a number stays within the text and never moves back.
pub proof fn lemma_scan_number_bounds(chars: Seq<char>, cur: Cursor, acc: Seq<char>)
    requires
        0 <= cur.pos <= chars.len(),
    ensures
        cur.pos <= scan_number(chars, cur, acc).0.pos <= chars.len(),
    decreases chars.len() - cur.pos,
{
    if cur.pos < chars.len() && is_number_char(chars[cur.pos]) {
        lemma_scan_number_bounds(
            chars,
            advance(chars, cur),
            if chars[cur.pos] == '_' {
                acc
            } else {
                acc.push(chars[cur.pos])
            },
        );
    }
}

/// Scanning an identifier stays within the text and never moves back.
pub proof fn lemma_scan_identifier_bounds(chars: Seq<char>, cur: Cursor, acc: Seq<char>)
    requires
        0 <= cur.pos <= chars.len(),
    ensures
        cur.pos <= scan_identifier(chars, cur, acc).0.pos <= chars.len(),
    decreases chars.len() - cur.pos,
{
    if cur.pos < chars.len() && is_ident_char(chars[cur.pos]) {
        lemma_scan_identifier_bounds(chars, advance(chars, cur), acc.push(chars[cur.pos]));
    }
}

/// Scanning hexadecimal digits stays within the text and never moves back.
pub proof fn lemma_scan_hex_bounds(chars: Seq<char>, cur: Cursor, acc: Seq<char>, left: nat)
    requires
        0 <= cur.pos <= chars.len(),
    ensures
        cur.pos <= scan_hex(chars, cur, acc, left).0.pos <= chars.len(),
    decreases left,
{
    if left > 0 && cur.pos < chars.len() && is_hex_digit(chars[cur.pos]) {
        lemma_scan_hex_bounds(chars, advance(chars, cur), acc.push(chars[cur.pos]), (left - 1) as nat);
    }
}

/// Reading an escape sequence stays within the text and never moves back.
pub proof fn lemma_read_escape_bounds(chars: Seq<char>, cur: Cursor)
    requires
        0 <= cur.pos <= chars.len(),
    ensures
        read_escape_sequence(chars, cur) matches Ok((_, next)) ==> cur.pos <= next.pos <= chars.len(),
{
    lemma_scan_hex_bounds(chars, advance(chars, cur), Seq::empty(), 2);
}

/// Scanning a string stays within the text and never moves back.
pub proof fn lemma_scan_string_bounds(chars: Seq<char>, cur: Cursor, acc: Seq<char>, opened: Cursor)
    requires
        0 <= cur.pos <= chars.len(),
    ensures
        scan_string(chars, cur, acc, opened) matches Ok((_, next)) ==> cur.pos <= next.pos
            <= chars.len(),
    decreases chars.len() - cur.pos,
{
    if cur.pos < chars.len() {
        let c = chars[cur.pos];
        if c == '"' {
        } else if c == '\\' {
            lemma_read_escape_bounds(chars, advance(chars, cur));
            match read_escape_sequence(chars, advance(chars, cur)) {
                Ok((escaped, next)) => {
                    lemma_scan_string_bounds(chars, next, acc.push(escaped), opened);
                },
                Err(_) => {},
            }
        } else if c == '\n' {
        } else {
            lemma_scan_string_bounds(chars, advance(chars, cur), acc.push(c), opened);
        }
    }
}

/// Every step of the lexer consumes at least one character and stays
/// within the text.
#[verifier::rlimit(30)]
pub proof fn lemma_next_token_advances(chars: Seq<char>, cur: Cursor)
    requires
        0 <= cur.pos < chars.len(),
    ensures
        next_token(chars, cur) matches Ok((_, next)) ==> cur.pos < next.pos <= chars.len(),
{
    let c = chars[cur.pos];
    let after = advance(chars, cur);
    lemma_skip_whitespace_bounds(chars, after);
    lemma_skip_comment_bounds(chars, after);
    lemma_scan_number_bounds(chars, after, Seq::empty().push(c));
    lemma_scan_identifier_bounds(chars, after, Seq::empty().push(c));
    lemma_scan_string_bounds(chars, after, Seq::empty(), cur);
    if c == '\'' {
        let inside = after;
        if inside.pos < chars.len() && chars[inside.pos] == '\\' {
            lemma_read_escape_bounds(chars, advance(chars, inside));
        }
    }
}

/// The tokens of a text always end with the end-of-file token, and the
/// tokens that had been read before stay in front of those that follow.
pub proof fn lemma_lex_ends_with_eof(chars: Seq<char>, cur: Cursor, acc: Seq<TokenView>)
    requires
        0 <= cur.pos <= chars.len(),
    ensures
        lex(chars, cur, acc) matches Ok(tokens) ==> tokens.len() > acc.len() && tokens.subrange(
            0,
            acc.len() as int,
        ) == acc && tokens.last().kind is Eof,
    decreases chars.len() - cur.pos,
{
    if cur.pos >= chars.len() {
        assert(acc.push(eof_token(cur)).subrange(0, acc.len() as int) =~= acc);
    } else {
        lemma_next_token_advances(chars, cur);
        match next_token(chars, cur) {
            Ok((token, next)) => {
                let more = match token {
                    Some(token) => acc.push(token),
                    None => acc,
                };
                lemma_lex_ends_with_eof(chars, next, more);
                match lex(chars, next, more) {
                    Ok(tokens) => {
                        assert(tokens.subrange(0, acc.len() as int) =~= tokens.subrange(
                            0,
                            more.len() as int,
                        ).subrange(0, acc.len() as int));
                        assert(more.subrange(0, acc.len() as int) =~= acc);
                    },
                    Err(_) => {},
                }
            },
            Err(_) => {},
        }
    }
}

/// Whether `c` has the Unicode property `White_Space`.
fn char_is_whitespace(c: char) -> (yes: bool)
    ensures
        yes == is_whitespace(c),
{
    let n: u32 = c as u32;
    (0x09 <= n && n <= 0x0D) || n == 0x20 || n == 0x85 || n == 0xA0 || n == 0x1680 || (0x2000 <= n
        && n <= 0x200A) || n == 0x2028 || n == 0x2029 || n == 0x202F || n == 0x205F || n == 0x3000
}

/// Whether `c` is an ASCII letter.
fn char_is_letter(c: char) -> (yes: bool)
    ensures
        yes == is_letter(c),
{
    ('a' <= c && c <= 'z') || ('A' <= c && c <= 'Z')
}

/// Whether `c` is a hexadecimal digit.
fn char_is_hex_digit(c: char) -> (yes: bool)
    ensures
        yes == is_hex_digit(c),
{
    char_is_digit(c) || ('a' <= c && c <= 'f') || ('A' <= c && c <= 'F')
}

/// A prefix that is no number, or too large a number, makes the whole
/// sequence no number, or none that is smaller.
proof fn lemma_digits_prefix(digits: Seq<char>, radix: int, k: int)
    requires
        0 <= k <= digits.len(),
        radix >= 1,
    ensures
        match digits_value(digits.subrange(0, k), radix) {
            Some(low) => 0 <= low && (digits_value(digits, radix) matches Some(all) ==> low <= all),
            None => digits_value(digits, radix) is None,
        },
    decreases digits.len() - k,
{
    if k == digits.len() {
        assert(digits.subrange(0, k) =~= digits);
        lemma_digits_nonnegative(digits, radix);
    } else {
        lemma_digits_prefix(digits, radix, k + 1);
        assert(digits.subrange(0, k + 1).drop_last() =~= digits.subrange(0, k));
        lemma_digits_nonnegative(digits.subrange(0, k), radix);
        if digits_value(digits.subrange(0, k), radix) is Some && digit_value(digits[k], radix) is Some {
            let low = digits_value(digits.subrange(0, k), radix)->0;
            let d = digit_value(digits[k], radix)->0;
            assert(low * radix + d >= low) by (nonlinear_arith)
                requires
                    low >= 0,
                    radix >= 1,
                    d >= 0,
            ;
        }
    }
}

/// A number is never negative.
proof fn lemma_digits_nonnegative(digits: Seq<char>, radix: int)
    requires
        radix >= 1,
    ensures
        digits_value(digits, radix) matches Some(value) ==> value >= 0,
    decreases digits.len(),
{
    if digits.len() > 0 {
        lemma_digits_nonnegative(digits.drop_last(), radix);
        if digits_value(digits.drop_last(), radix) is Some && digit_value(digits.last(), radix) is Some {
            let high = digits_value(digits.drop_last(), radix)->0;
            let low = digit_value(digits.last(), radix)->0;
            assert(high * radix + low >= 0) by (nonlinear_arith)
                requires
                    high >= 0,
                    radix >= 1,
                    low >= 0,
            ;
        }
    }
}

/// The sixteen-bit number that the characters from `from` on denote in the
/// given radix.
pub fn parse_digits(digits: &Vec<char>, from: usize, radix: u32) -> (value: Option<u16>)
    requires
        from <= digits.len(),
        2 <= radix <= 16,
    ensures
        value == parse_u16(digits@.subrange(from as int, digits.len() as int), radix as int),
{
    let ghost all = digits@.subrange(from as int, digits.len() as int);
    if from == digits.len() {
        return None;
    }
    let mut acc: u32 = 0;
    let mut k: usize = from;
    while k < digits.len()
        invariant
            from <= k <= digits.len(),
            2 <= radix <= 16,
            all == digits@.subrange(from as int, digits.len() as int),
            acc <= 0xFFFF,
            digits_value(all.subrange(0, k - from), radix as int) == Some(acc as int),
        decreases digits.len() - k,
    {
        let ghost seen = all.subrange(0, k - from);
        let ghost more = all.subrange(0, k - from + 1);
        proof {
            assert(more.drop_last() =~= seen);
            assert(more.last() == digits@[k as int]);
            lemma_digits_prefix(all, radix as int, k - from + 1);
        }
        match digit_of(digits[k], radix) {
            Some(d) => {
                assert(acc * radix + d <= 0xFFFF * 16 + 16) by (nonlinear_arith)
                    requires
                        acc <= 0xFFFF,
                        radix <= 16,
                        d < radix,
                ;
                acc = acc * radix + d;
                if acc > 0xFFFF {
                    return None;
                }
            },
            None => {
                return None;
            },
        }
        k += 1;
    }
    assert(all.subrange(0, all.len() as int) =~= all);
    Some(acc as u16)
}

/// The value of a number literal.
pub fn parse_number(literal: &Vec<char>) -> (value: Option<u16>)
    ensures
        value == number_value(literal@),
{
    if literal.len() >= 2 && literal[0] == '0' && literal[1] == 'x' {
        parse_digits(literal, 2, 16)
    } else if literal.len() >= 2 && literal[0] == '0' && literal[1] == 'b' {
        parse_digits(literal, 2, 2)
    } else {
        assert(literal@.subrange(0, literal.len() as int) =~= literal@);
        parse_digits(literal, 0, 10)
    }
}

/// The keyword that `word` spells, or the identifier that it is.
pub fn classify_word(word: &Vec<char>) -> (kind: TokenKind)
    ensures
        kind@ == word_kind(word@),
{
    if spells(word, "if") {
        TokenKind::If
    } else if spells(word, "else") {
        TokenKind::Else
    } else if spells(word, "while") {
        TokenKind::While
    } else if spells(word, "for") {
        TokenKind::For
    } else if spells(word, "def") {
        TokenKind::Def
    } else if spells(word, "return") {
        TokenKind::Return
    } else if spells(word, "True") {
        TokenKind::True
    } else if spells(word, "False") {
        TokenKind::False
    } else if spells(word, "None") {
        TokenKind::NoneValue
    } else if spells(word, "pass") {
        TokenKind::Pass
    } else if spells(word, "in") {
        TokenKind::In
    } else {
        TokenKind::Identifier(string_of(word))
    }
}

/// A lexer over one source text.
#[derive(Debug)]
pub struct Lexer {
    chars: Vec<char>,
    line: usize,
    column: usize,
    current_pos: usize,
}

impl Clone for Lexer {
    /// A lexer over the same text at the same place.
    fn clone(&self) -> (copy: Lexer)
        ensures
            copy.source() == self.source(),
            copy.cursor() == self.cursor(),
            copy.wf() == self.wf(),
    {
        Lexer {
            chars: self.chars.clone(),
            line: self.line,
            column: self.column,
            current_pos: self.current_pos,
        }
    }
}

impl Lexer {
    /// The text that the lexer reads.
    pub closed spec fn source(&self) -> Seq<char> {
        self.chars@
    }

    /// Where the lexer stands in the text.
    pub closed spec fn cursor(&self) -> Cursor {
        Cursor { pos: self.current_pos as int, line: self.line, column: self.column }
    }

    /// The invariant of the lexer: it stands within its text.
    pub closed spec fn wf(&self) -> bool {
        self.current_pos <= self.chars.len()
    }

    /// A lexer at the start of `source`.
    pub fn new(source: &str) -> (lexer: Lexer)
        ensures
            lexer.wf(),
            lexer.source() == source@,
            lexer.cursor() == Cursor::start(),
    {
        Lexer { chars: chars_of(source), line: 1, column: 1, current_pos: 0 }
    }

    /// Consumes the next character, if there is one.
    fn next_char(&mut self) -> (c: Option<char>)
        requires
            old(self).wf(),
        ensures
            final(self).wf(),
            final(self).source() == old(self).source(),
            c == peek(old(self).source(), old(self).cursor()),
            final(self).cursor() == advance(old(self).source(), old(self).cursor()),
    {
        if self.current_pos < self.chars.len() {
            let c: char = self.chars[self.current_pos];
            if c == '\n' {
                if self.line < usize::MAX {
                    self.line += 1;
                }
                self.column = 1;
            } else {
                if self.column < usize::MAX {
                    self.column += 1;
                }
            }
            self.current_pos += 1;
            Some(c)
        } else {
            None
        }
    }

    /// The next character, if there is one, without consuming it.
    fn peek_char(&self) -> (c: Option<char>)
        requires
            self.wf(),
        ensures
            c == peek(self.source(), self.cursor()),
    {
        if self.current_pos < self.chars.len() {
            Some(self.chars[self.current_pos])
        } else {
            None
        }
    }

    /// Skips blanks up to the next line feed or token.
    fn skip_whitespace(&mut self)
        requires
            old(self).wf(),
        ensures
            final(self).wf(),
            final(self).source() == old(self).source(),
            final(self).cursor() == skip_whitespace(old(self).source(), old(self).cursor()),
    {
        loop
            invariant
                self.wf(),
                self.source() == old(self).source(),
                skip_whitespace(self.source(), self.cursor()) == skip_whitespace(
                    old(self).source(),
                    old(self).cursor(),
                ),
            ensures
                self.wf(),
                self.source() == old(self).source(),
                self.cursor() == skip_whitespace(old(self).source(), old(self).cursor()),
            decreases self.chars.len() - self.current_pos,
        {
            match self.peek_char() {
                Some(c) => {
                    if char_is_whitespace(c) && c != '\n' {
                        self.next_char();
                    } else {
                        break;
                    }
                },
                None => {
                    break;
                },
            }
        }
    }

    /// Skips the rest of the line.
    fn skip_comment(&mut self)
        requires
            old(self).wf(),
        ensures
            final(self).wf(),
            final(self).source() == old(self).source(),
            final(self).cursor() == skip_comment(old(self).source(), old(self).cursor()),
    {
        loop
            invariant
                self.wf(),
                self.source() == old(self).source(),
                skip_comment(self.source(), self.cursor()) == skip_comment(
                    old(self).source(),
                    old(self).cursor(),
                ),
            ensures
                self.wf(),
                self.source() == old(self).source(),
                self.cursor() == skip_comment(old(self).source(), old(self).cursor()),
            decreases self.chars.len() - self.current_pos,
        {
            match self.peek_char() {
                Some(c) => {
                    if c == '\n' {
                        break;
                    }
                    self.next_char();
                },
                None => {
                    break;
                },
            }
        }
    }

    /// The span from `from` to where the lexer stands.
    fn span_from(&self, start: usize, line: usize, column: usize) -> (span: Span)
        ensures
            span == span_between(Cursor { pos: start as int, line, column }, self.cursor()),
    {
        Span { line, column, start, end: self.current_pos }
    }

    /// Reads a number literal.
    fn read_number(&mut self) -> (result: Result<Token, LexerError>)
        requires
            old(self).wf(),
        ensures
            final(self).wf(),
            final(self).source() == old(self).source(),
            lexed_token(result, final(self).cursor(), read_number(old(self).source(), old(self).cursor())),
    {
        let start = self.current_pos;
        let line = self.line;
        let column = self.column;
        let mut literal: Vec<char> = Vec::new();
        loop
            invariant
                self.wf(),
                self.source() == old(self).source(),
                scan_number(self.source(), self.cursor(), literal@) == scan_number(
                    old(self).source(),
                    old(self).cursor(),
                    Seq::empty(),
                ),
            ensures
                self.wf(),
                self.source() == old(self).source(),
                (self.cursor(), literal@) == scan_number(
                    old(self).source(),
                    old(self).cursor(),
                    Seq::empty(),
                ),
            decreases self.chars.len() - self.current_pos,
        {
            match self.peek_char() {
                Some(c) => {
                    if char_is_hex_digit(c) || c == 'x' || c == 'X' || c == 'b' || c == 'B' || c
                        == '_' {
                        if c != '_' {
                            literal.push(c);
                        }
                        self.next_char();
                    } else {
                        break;
                    }
                },
                None => {
                    break;
                },
            }
        }
        match parse_number(&literal) {
            Some(value) => Ok(
                Token { kind: TokenKind::Number(value), span: self.span_from(start, line, column) },
            ),
            None => Err(LexerError::InvalidNumber { number: string_of(&literal), line, column }),
        }
    }

    /// Reads a character literal.
    fn read_char_literal(&mut self) -> (result: Result<Token, LexerError>)
        requires
            old(self).wf(),
        ensures
            final(self).wf(),
            final(self).source() == old(self).source(),
            lexed_token(
                result,
                final(self).cursor(),
                read_char_literal(old(self).source(), old(self).cursor()),
            ),
    {
        let start = self.current_pos;
        let line = self.line;
        let column = self.column;
        self.next_char();
        let c: char = match self.next_char() {
            Some(c) => {
                if c == '\\' {
                    match self.read_escape_sequence() {
                        Ok(escaped) => escaped,
                        Err(error) => {
                            return Err(error);
                        },
                    }
                } else if c == '\'' {
                    return Err(LexerError::UnclosedCharLiteral { line, column });
                } else {
                    c
                }
            },
            None => {
                return Err(LexerError::UnclosedCharLiteral { line, column });
            },
        };
        match self.next_char() {
            Some(closing) => {
                if closing != '\'' {
                    return Err(LexerError::UnclosedCharLiteral { line, column });
                }
            },
            None => {
                return Err(LexerError::UnclosedCharLiteral { line, column });
            },
        }
        Ok(Token { kind: TokenKind::CharLiteral(c), span: self.span_from(start, line, column) })
    }

    /// Reads what follows a backslash.
    fn read_escape_sequence(&mut self) -> (result: Result<char, LexerError>)
        requires
            old(self).wf(),
        ensures
            final(self).wf(),
            final(self).source() == old(self).source(),
            lexed_char(
                result,
                final(self).cursor(),
                read_escape_sequence(old(self).source(), old(self).cursor()),
            ),
    {
        let line = self.line;
        let column = self.column;
        match self.next_char() {
            Some(c) => {
                if c == 'n' {
                    Ok('\n')
                } else if c == 't' {
                    Ok('\t')
                } else if c == 'r' {
                    Ok('\r')
                } else if c == '\\' {
                    Ok('\\')
                } else if c == '\'' {
                    Ok('\'')
                } else if c == '0' {
                    Ok('\0')
                } else if c == 'x' {
                    self.read_hex_escape()
                } else {
                    Err(LexerError::UnknownEscape { seq: c, line, column })
                }
            },
            None => Err(LexerError::UnclosedCharLiteral { line, column }),
        }
    }

    /// Reads the two hexadecimal digits of a `\x` escape.
    fn read_hex_escape(&mut self) -> (result: Result<char, LexerError>)
        requires
            old(self).wf(),
        ensures
            final(self).wf(),
            final(self).source() == old(self).source(),
            lexed_char(
                result,
                final(self).cursor(),
                read_hex_escape(old(self).source(), old(self).cursor()),
            ),
    {
        let line = self.line;
        let column = self.column;
        let mut digits: Vec<char> = Vec::new();
        let mut left: usize = 2;
        loop
            invariant
                self.wf(),
                self.source() == old(self).source(),
                left <= 2,
                scan_hex(self.source(), self.cursor(), digits@, left as nat) == scan_hex(
                    old(self).source(),
                    old(self).cursor(),
                    Seq::empty(),
                    2,
                ),
            ensures
                self.wf(),
                self.source() == old(self).source(),
                (self.cursor(), digits@) == scan_hex(
                    old(self).source(),
                    old(self).cursor(),
                    Seq::empty(),
                    2,
                ),
            decreases left,
        {
            if left == 0 {
                break;
            }
            match self.peek_char() {
                Some(c) => {
                    if char_is_hex_digit(c) {
                        digits.push(c);
                        self.next_char();
                        left -= 1;
                    } else {
                        break;
                    }
                },
                None => {
                    break;
                },
            }
        }
        if digits.len() != 2 {
            return Err(LexerError::UnknownEscape { seq: 'x', line, column });
        }
        assert(digits@.subrange(0, 2) =~= digits@);
        match parse_digits(&digits, 0, 16) {
            Some(value) => {
                proof {
                    lemma_two_hex_digits(digits@);
                }
                Ok(value as u8 as char)
            },
            None => Err(LexerError::UnknownEscape { seq: 'x', line, column }),
        }
    }

    /// Reads a keyword or an identifier.
    fn read_identifier(&mut self) -> (token: Token)
        requires
            old(self).wf(),
        ensures
            final(self).wf(),
            final(self).source() == old(self).source(),
            (token@, final(self).cursor()) == read_identifier(old(self).source(), old(self).cursor()),
    {
        let start = self.current_pos;
        let line = self.line;
        let column = self.column;
        let mut word: Vec<char> = Vec::new();
        loop
            invariant
                self.wf(),
                self.source() == old(self).source(),
                scan_identifier(self.source(), self.cursor(), word@) == scan_identifier(
                    old(self).source(),
                    old(self).cursor(),
                    Seq::empty(),
                ),
            ensures
                self.wf(),
                self.source() == old(self).source(),
                (self.cursor(), word@) == scan_identifier(
                    old(self).source(),
                    old(self).cursor(),
                    Seq::empty(),
                ),
            decreases self.chars.len() - self.current_pos,
        {
            match self.peek_char() {
                Some(c) => {
                    if char_is_letter(c) || char_is_digit(c) || c == '_' {
                        word.push(c);
                        self.next_char();
                    } else {
                        break;
                    }
                },
                None => {
                    break;
                },
            }
        }
        Token { kind: classify_word(&word), span: self.span_from(start, line, column) }
    }

    /// Reads a string literal.
    fn read_string_literal(&mut self) -> (result: Result<Token, LexerError>)
        requires
            old(self).wf(),
        ensures
            final(self).wf(),
            final(self).source() == old(self).source(),
            lexed_token(
                result,
                final(self).cursor(),
                read_string_literal(old(self).source(), old(self).cursor()),
            ),
    {
        let start = self.current_pos;
        let line = self.line;
        let column = self.column;
        let ghost opened = self.cursor();
        self.next_char();
        let ghost inside = self.cursor();
        let mut content: Vec<char> = Vec::new();
        loop
            invariant_except_break
                scan_string(self.source(), self.cursor(), content@, opened) == scan_string(
                    old(self).source(),
                    inside,
                    Seq::empty(),
                    opened,
                ),
            invariant
                self.wf(),
                self.source() == old(self).source(),
                opened == (Cursor { pos: start as int, line, column }),
                opened == old(self).cursor(),
                inside == advance(old(self).source(), opened),
            ensures
                self.wf(),
                self.source() == old(self).source(),
                scan_string(old(self).source(), inside, Seq::empty(), opened) == Ok::<
                    (Seq<char>, Cursor),
                    LexerErrorView,
                >((content@, self.cursor())),
            decreases self.chars.len() - self.current_pos,
        {
            match self.peek_char() {
                Some(c) => {
                    if c == '"' {
                        self.next_char();
                        break;
                    } else if c == '\\' {
                        let ghost at = self.cursor();
                        self.next_char();
                        proof {
                            lemma_read_escape_bounds(self.source(), self.cursor());
                        }
                        match self.read_escape_sequence() {
                            Ok(escaped) => {
                                content.push(escaped);
                            },
                            Err(error) => {
                                return Err(error);
                            },
                        }
                    } else if c == '\n' {
                        return Err(LexerError::UnclosedCharLiteral { line, column });
                    } else {
                        content.push(c);
                        self.next_char();
                    }
                },
                None => {
                    break;
                },
            }
        }
        Ok(
            Token {
                kind: TokenKind::StringLiteral(string_of(&content)),
                span: self.span_from(start, line, column),
            },
        )
    }

    /// Reads a token of one character.
    fn single_char_token(&mut self, kind: TokenKind) -> (token: Token)
        requires
            old(self).wf(),
        ensures
            final(self).wf(),
            final(self).source() == old(self).source(),
            (token@, final(self).cursor()) == single_char_token(
                old(self).source(),
                old(self).cursor(),
                kind@,
            ),
    {
        let start = self.current_pos;
        let line = self.line;
        let column = self.column;
        self.next_char();
        Token { kind, span: self.span_from(start, line, column) }
    }

    /// Reads a token of one character, or of two if the second is `expected`.
    fn read_double_char(
        &mut self,
        expected: char,
        single_kind: TokenKind,
        double_kind: TokenKind,
    ) -> (token: Token)
        requires
            old(self).wf(),
        ensures
            final(self).wf(),
            final(self).source() == old(self).source(),
            (token@, final(self).cursor()) == read_double_char(
                old(self).source(),
                old(self).cursor(),
                expected,
                single_kind@,
                double_kind@,
            ),
    {
        let start = self.current_pos;
        let line = self.line;
        let column = self.column;
        self.next_char();
        let second = self.peek_char();
        if second.is_some() && second.unwrap() == expected {
            self.next_char();
            Token { kind: double_kind, span: self.span_from(start, line, column) }
        } else {
            Token { kind: single_kind, span: self.span_from(start, line, column) }
        }
    }

    /// Reads the token that starts where the lexer stands, or skips the
    /// blanks or the comment that start there.
    #[verifier::rlimit(30)]
    fn next_token(&mut self, c: char) -> (result: Result<Option<Token>, LexerError>)
        requires
            old(self).wf(),
            peek(old(self).source(), old(self).cursor()) == Some(c),
        ensures
            final(self).wf(),
            final(self).source() == old(self).source(),
            match next_token(old(self).source(), old(self).cursor()) {
                Ok((token, next)) => final(self).cursor() == next && (result matches Ok(got) && (
                match (got, token) {
                    (Some(a), Some(b)) => a@ == b,
                    (None, None) => true,
                    _ => false,
                })),
                Err(error) => result matches Err(got) && got@ == error,
            },
    {
        if c == ' ' || c == '\t' || c == '\r' {
            self.skip_whitespace();
            Ok(None)
        } else if c == '\n' {
            let token = Token {
                kind: TokenKind::Newline,
                span: Span {
                    line: self.line,
                    column: self.column,
                    start: self.current_pos,
                    end: self.current_pos + 1,
                },
            };
            self.next_char();
            Ok(Some(token))
        } else if char_is_digit(c) {
            match self.read_number() {
                Ok(token) => Ok(Some(token)),
                Err(error) => Err(error),
            }
        } else if char_is_letter(c) || c == '_' {
            Ok(Some(self.read_identifier()))
        } else if c == '\'' {
            match self.read_char_literal() {
                Ok(token) => Ok(Some(token)),
                Err(error) => Err(error),
            }
        } else if c == '"' {
            match self.read_string_literal() {
                Ok(token) => Ok(Some(token)),
                Err(error) => Err(error),
            }
        } else if c == '=' {
            Ok(Some(self.read_double_char('=', TokenKind::Assign, TokenKind::Equal)))
        } else if c == '!' {
            Ok(Some(self.read_double_char('=', TokenKind::Not, TokenKind::NotEqual)))
        } else if c == '#' {
            self.skip_comment();
            Ok(None)
        } else if c == '+' {
            Ok(Some(self.single_char_token(TokenKind::Plus)))
        } else if c == '-' {
            Ok(Some(self.single_char_token(TokenKind::Minus)))
        } else if c == '*' {
            Ok(Some(self.single_char_token(TokenKind::Star)))
        } else if c == '/' {
            Ok(Some(self.single_char_token(TokenKind::Slash)))
        } else if c == '>' {
            Ok(Some(self.single_char_token(TokenKind::Greater)))
        } else if c == '<' {
            Ok(Some(self.single_char_token(TokenKind::Less)))
        } else if c == '(' {
            Ok(Some(self.single_char_token(TokenKind::LParen)))
        } else if c == ')' {
            Ok(Some(self.single_char_token(TokenKind::RParen)))
        } else if c == ':' {
            Ok(Some(self.single_char_token(TokenKind::Colon)))
        } else if c == ',' {
            Ok(Some(self.single_char_token(TokenKind::Comma)))
        } else {
            Err(LexerError::UnexpectedChar { char: c, line: self.line, column: self.column })
        }
    }

    /// Reads the whole text: its tokens in order, closed by the end-of-file
    /// token, or the first lexical error.
    pub fn tokenize(self) -> (result: Result<Vec<Token>, LexerError>)
        requires
            self.wf(),
        ensures
            lexed_view(result) == lex(self.source(), self.cursor(), Seq::empty()),
    {
        let ghost source = self.source();
        let ghost start = self.cursor();
        let mut lexer = self;
        let mut tokens: Vec<Token> = Vec::new();
        assert(tokens_view(tokens@) =~= Seq::empty());
        loop
            invariant
                lexer.wf(),
                lexer.source() == source,
                source == self.source(),
                start == self.cursor(),
                lex(source, lexer.cursor(), tokens_view(tokens@)) == lex(source, start, Seq::empty()),
            ensures
                lexer.wf(),
                lexer.source() == source,
                lex(source, start, Seq::empty()) == Ok::<Seq<TokenView>, LexerErrorView>(
                    tokens_view(tokens@).push(eof_token(lexer.cursor())),
                ),
            decreases lexer.chars.len() - lexer.current_pos,
        {
            let ghost before = lexer.cursor();
            let ghost seen = tokens_view(tokens@);
            match lexer.peek_char() {
                Some(c) => {
                    proof {
                        lemma_next_token_advances(source, before);
                    }
                    match lexer.next_token(c) {
                        Ok(Some(token)) => {
                            tokens.push(token);
                            assert(tokens_view(tokens@) =~= seen.push(token@));
                        },
                        Ok(None) => {},
                        Err(error) => {
                            return Err(error);
                        },
                    }
                },
                None => {
                    break;
                },
            }
        }
        let eof = Token {
            kind: TokenKind::Eof,
            span: Span {
                line: lexer.line,
                column: lexer.column,
                start: lexer.current_pos,
                end: lexer.current_pos,
            },
        };
        let ghost seen = tokens_view(tokens@);
        tokens.push(eof);
        assert(tokens_view(tokens@) =~= seen.push(eof@));
        Ok(tokens)
    }
}

/// Two hexadecimal digits denote a number below 256.
proof fn lemma_two_hex_digits(digits: Seq<char>)
    requires
        digits.len() == 2,
    ensures
        parse_u16(digits, 16) matches Some(value) ==> value < 256,
{
    reveal_with_fuel(digits_value, 3);
    assert(digits.drop_last().drop_last() =~= Seq::<char>::empty());
}

/// What the result of tokenizing for the compiler stands for.
pub open spec fn tokenized_view(result: Result<Vec<Token>, CompileError>) -> Result<
    Seq<TokenView>,
    CompileErrorView,
> {
    match result {
        Ok(tokens) => Ok(tokens_view(tokens@)),
        Err(error) => Err(error@),
    }
}

/// The tokens of a source text, or the compile error that reports the first
/// lexical error in it.
pub open spec fn tokenize_spec(source: Seq<char>) -> Result<Seq<TokenView>, CompileErrorView> {
    match tokens_of(source) {
        Ok(tokens) => Ok(tokens),
        Err(error) => Err(from_lexer_error(error)),
    }
}

/// Splits a source text into tokens.
pub fn tokenize(source: &str) -> (result: Result<Vec<Token>, CompileError>)
    ensures
        tokenized_view(result) == tokenize_spec(source@),
{
    let lexer = Lexer::new(source);
    match lexer.tokenize() {
        Ok(tokens) => Ok(tokens),
        Err(error) => Err(CompileError::from_lexer_error(&error)),
    }
}

} // verus!


